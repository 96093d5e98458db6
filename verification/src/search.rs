//! Search criteria: what a search asks the service for, which removals can be
//! answered from the selection alone, and how the pages of an answer are
//! taken into the selection.

use vstd::prelude::*;
use vstd::string::StringExecFns;
use crate::asset::{
    filed_offset, taken_at, AssetRecord, AssetRecordView,
};
use crate::assets::Assets;
use crate::error::{Error, ErrorView};
use crate::ident::{parse_uuid, uuid_value};
use crate::immichctl::ImmichCtl;
use crate::lookup::{
    album_id_by_name, album_views, tag_id_by_name, tag_views,
    AlbumInfo, AlbumInfoView, TagInfo, TagInfoView,
};
use crate::time::{OffsetDateTime, OffsetDateTimeView, Timestamp};
use crate::timezone::TimezoneOffset;

verus! {

/// What a search is asked to go by. Every criterion that is given must hold
/// of an asset for the search to find it.
#[derive(Debug)]
pub struct AssetSearchArgs {
    /// Remove what is found from the selection instead of adding it.
    pub remove: bool,
    /// The asset's identifier.
    pub id: Option<String>,
    /// The name of a tag on the asset.
    pub tag: Option<String>,
    /// The name of an album that holds the asset.
    pub album: Option<String>,
    /// Whether the asset is a favorite.
    pub favorite: Option<bool>,
    /// The asset was taken after this instant.
    pub taken_after: Option<OffsetDateTime>,
    /// The asset was taken before this instant.
    pub taken_before: Option<OffsetDateTime>,
    /// The offset the asset is filed under. Only a removal can ask for it.
    pub timezone: Option<TimezoneOffset>,
}

/// What the service is asked for.
#[derive(Debug)]
pub struct MetadataSearchDto {
    /// The asset's identifier.
    pub id: Option<u128>,
    /// The tags on the asset.
    pub tag_ids: Option<Vec<u128>>,
    /// The albums that hold the asset.
    pub album_ids: Vec<u128>,
    /// Whether the asset is a favorite.
    pub is_favorite: Option<bool>,
    /// The asset was taken after this instant.
    pub taken_after: Option<Timestamp>,
    /// The asset was taken before this instant.
    pub taken_before: Option<Timestamp>,
    /// Whether the answer shall carry what the camera recorded.
    pub with_exif: Option<bool>,
    /// The page of the answer that is asked for: `1` for the first, then
    /// whatever the service named as the next.
    pub page: Option<String>,
}

/// The lists of the service that a search needs before it can be built.
#[derive(Clone, Copy, Debug, PartialEq, Eq, Structural)]
pub struct Lookups {
    /// The list of tags.
    pub tags: bool,
    /// The list of albums.
    pub albums: bool,
}

/// How a removal is carried out.
#[derive(Clone, Copy, Debug, PartialEq, Eq, Structural)]
pub enum RemovalPlan {
    /// From what the selection holds, without asking the service.
    Local,
    /// By asking the service and removing what it finds.
    Remote,
}

/// Search criteria as plain values.
pub ghost struct AssetSearchArgsView {
    pub remove: bool,
    pub id: Option<Seq<char>>,
    pub tag: Option<Seq<char>>,
    pub album: Option<Seq<char>>,
    pub favorite: Option<bool>,
    pub taken_after: Option<OffsetDateTimeView>,
    pub taken_before: Option<OffsetDateTimeView>,
    pub timezone: Option<int>,
}

/// A request to the service as plain values.
pub ghost struct MetadataSearchDtoView {
    pub id: Option<u128>,
    pub tag_ids: Option<Seq<u128>>,
    pub album_ids: Seq<u128>,
    pub is_favorite: Option<bool>,
    pub taken_after: Option<int>,
    pub taken_before: Option<int>,
    pub with_exif: Option<bool>,
    pub page: Option<Seq<char>>,
}

/// An optional text as plain values.
pub open spec fn text_view(text: Option<String>) -> Option<Seq<char>> {
    match text {
        Some(t) => Some(t@),
        None => None,
    }
}

/// An optional instant at an offset as plain values.
pub open spec fn date_time_view(t: Option<OffsetDateTime>) -> Option<OffsetDateTimeView> {
    match t {
        Some(t) => Some(t@),
        None => None,
    }
}

/// An optional instant as a number.
pub open spec fn instant_view(t: Option<Timestamp>) -> Option<int> {
    match t {
        Some(t) => Some(t@),
        None => None,
    }
}

/// The instant of an optional instant at an offset.
pub open spec fn instant_of(t: Option<OffsetDateTimeView>) -> Option<int> {
    match t {
        Some(t) => Some(t.instant),
        None => None,
    }
}

impl View for AssetSearchArgs {
    type V = AssetSearchArgsView;

    open spec fn view(&self) -> AssetSearchArgsView {
        AssetSearchArgsView {
            remove: self.remove,
            id: text_view(self.id),
            tag: text_view(self.tag),
            album: text_view(self.album),
            favorite: self.favorite,
            taken_after: date_time_view(self.taken_after),
            taken_before: date_time_view(self.taken_before),
            timezone: match self.timezone {
                Some(tz) => Some(tz@),
                None => None,
            },
        }
    }
}

impl View for MetadataSearchDto {
    type V = MetadataSearchDtoView;

    open spec fn view(&self) -> MetadataSearchDtoView {
        MetadataSearchDtoView {
            id: self.id,
            tag_ids: match self.tag_ids {
                Some(ids) => Some(ids@),
                None => None,
            },
            album_ids: self.album_ids@,
            is_favorite: self.is_favorite,
            taken_after: instant_view(self.taken_after),
            taken_before: instant_view(self.taken_before),
            with_exif: self.with_exif,
            page: text_view(self.page),
        }
    }
}

/// Whether the criteria name nothing that the service can search by. The
/// offset is not such a thing: the service knows none.
pub open spec fn nothing_to_search(args: AssetSearchArgsView) -> bool {
    args.id is None && args.tag is None && args.album is None && args.favorite is None
        && args.taken_after is None && args.taken_before is None
}

/// Whether the criteria name a tag or an album: what only the service knows.
pub open spec fn needs_service(args: AssetSearchArgsView) -> bool {
    args.tag is Some || args.album is Some
}

/// What was found for a criterion, as plain values.
pub open spec fn found_view(found: Option<Result<u128, Error>>) -> Option<Result<u128, ErrorView>> {
    match found {
        Some(Ok(id)) => Some(Ok(id)),
        Some(Err(e)) => Some(Err(e@)),
        None => None,
    }
}

/// The number that the identifier of the criteria writes, if they name one
/// and it is a UUID.
pub open spec fn id_found(args: AssetSearchArgsView) -> Option<Option<u128>> {
    match args.id {
        Some(id) => Some(uuid_value(id)),
        None => None,
    }
}

/// The tag that the criteria name, as the list of tags resolves it.
pub open spec fn tag_found(args: AssetSearchArgsView, tags: Seq<TagInfoView>) -> Option<
    Result<u128, ErrorView>,
> {
    match args.tag {
        Some(name) => Some(tag_id_by_name(name, tags)),
        None => None,
    }
}

/// The album that the criteria name, as the list of albums resolves it.
pub open spec fn album_found(args: AssetSearchArgsView, albums: Seq<AlbumInfoView>) -> Option<
    Result<u128, ErrorView>,
> {
    match args.album {
        Some(name) => Some(album_id_by_name(name, albums)),
        None => None,
    }
}

/// What the service is asked for to search by `args`, given what was found
/// for the identifier, the tag and the album that they name, or why the
/// search is refused. The first fault in the order identifier, tag, album
/// decides; a search by nothing is refused last.
pub open spec fn assemble_dto(
    args: AssetSearchArgsView,
    id: Option<Option<u128>>,
    tag: Option<Result<u128, ErrorView>>,
    album: Option<Result<u128, ErrorView>>,
) -> Result<MetadataSearchDtoView, ErrorView> {
    match (id, tag, album) {
        (Some(None), _, _) => Err(ErrorView::InvalidAssetId),
        (_, Some(Err(e)), _) => Err(e),
        (_, _, Some(Err(e))) => Err(e),
        _ => if id is None && tag is None && album is None && args.favorite is None
            && args.taken_after is None && args.taken_before is None {
            Err(ErrorView::NoSearchFlag)
        } else {
            Ok(
                MetadataSearchDtoView {
                    id: match id {
                        Some(found) => found,
                        None => None,
                    },
                    tag_ids: match tag {
                        Some(found) => Some(seq![found->Ok_0]),
                        None => None,
                    },
                    album_ids: match album {
                        Some(found) => seq![found->Ok_0],
                        None => Seq::empty(),
                    },
                    is_favorite: args.favorite,
                    taken_after: instant_of(args.taken_after),
                    taken_before: instant_of(args.taken_before),
                    with_exif: None,
                    page: None,
                },
            )
        },
    }
}

/// What the service is asked for to search by `args`, given its lists of tags
/// and albums, or why the search is refused.
pub open spec fn search_dto(
    args: AssetSearchArgsView,
    tags: Seq<TagInfoView>,
    albums: Seq<AlbumInfoView>,
) -> Result<MetadataSearchDtoView, ErrorView> {
    assemble_dto(args, id_found(args), tag_found(args, tags), album_found(args, albums))
}

/// How a removal by `args` is carried out, or why it is refused: an offset
/// cannot go together with a tag or an album, and a removal by nothing is no
/// removal.
pub open spec fn removal_plan(args: AssetSearchArgsView) -> Result<RemovalPlan, ErrorView> {
    if needs_service(args) {
        if args.timezone is Some {
            Err(ErrorView::TimezoneWithRemoteSearch)
        } else {
            Ok(RemovalPlan::Remote)
        }
    } else if nothing_to_search(args) && args.timezone is None {
        Err(ErrorView::NoSearchFlag)
    } else {
        Ok(RemovalPlan::Local)
    }
}

/// The lists that a search by `args` needs, given what was found for the
/// identifier that they name, or the fault that shows before any list is
/// fetched. A removal that the selection answers does not read the
/// identifier as a UUID.
pub open spec fn lookups_given(args: AssetSearchArgsView, id: Option<Option<u128>>) -> Result<
    Lookups,
    ErrorView,
> {
    let lists = Lookups { tags: args.tag is Some, albums: args.album is Some };
    let bad_id = id == Some(None::<u128>);
    if args.remove {
        match removal_plan(args) {
            Err(e) => Err(e),
            Ok(RemovalPlan::Local) => Ok(lists),
            Ok(RemovalPlan::Remote) => if bad_id {
                Err(ErrorView::InvalidAssetId)
            } else {
                Ok(lists)
            },
        }
    } else if bad_id {
        Err(ErrorView::InvalidAssetId)
    } else if nothing_to_search(args) {
        Err(ErrorView::NoSearchFlag)
    } else {
        Ok(lists)
    }
}

/// The lists that a search by `args` needs, or the fault that shows before
/// any list is fetched.
pub open spec fn lookups_for(args: AssetSearchArgsView) -> Result<Lookups, ErrorView> {
    lookups_given(args, id_found(args))
}

/// Whether a local removal by `args` removes `asset`: every criterion that is
/// given holds of it. The bounds on the capture time are strict.
pub open spec fn removes(args: AssetSearchArgsView, asset: AssetRecordView) -> bool {
    &&& args.id matches Some(id) ==> asset.id == id
    &&& args.favorite matches Some(favorite) ==> asset.is_favorite == favorite
    &&& args.taken_after matches Some(after) ==> after.instant < taken_at(asset).instant
    &&& args.taken_before matches Some(before) ==> taken_at(asset).instant < before.instant
    &&& args.timezone matches Some(offset) ==> filed_offset(asset) == offset
}

/// The selection after a local removal by `args`: what is not removed stays
/// as it is.
pub open spec fn after_local_removal(
    store: Map<Seq<char>, AssetRecordView>,
    args: AssetSearchArgsView,
) -> Map<Seq<char>, AssetRecordView> {
    Map::new(
        |k: Seq<char>| store.contains_key(k) && !removes(args, store[k]),
        |k: Seq<char>| store[k],
    )
}

/// The records as plain values.
pub open spec fn record_views(items: Seq<AssetRecord>) -> Seq<AssetRecordView> {
    Seq::new(items.len(), |i: int| items[i]@)
}

/// The selection after `items` were added one by one: a later record takes
/// the place of an earlier one with the same identifier.
pub open spec fn with_all(
    store: Map<Seq<char>, AssetRecordView>,
    items: Seq<AssetRecordView>,
) -> Map<Seq<char>, AssetRecordView>
    decreases items.len(),
{
    if items.len() == 0 {
        store
    } else {
        with_all(store, items.drop_last()).insert(items.last().id, items.last())
    }
}

/// The selection after what is stored under the identifiers of `items` was
/// removed.
pub open spec fn without_all(
    store: Map<Seq<char>, AssetRecordView>,
    items: Seq<AssetRecordView>,
) -> Map<Seq<char>, AssetRecordView>
    decreases items.len(),
{
    if items.len() == 0 {
        store
    } else {
        without_all(store, items.drop_last()).remove(items.last().id)
    }
}

/// How many records a run has added to, or removed from, a selection that
/// held `before` records and now holds `now`: never less than none.
pub open spec fn changed_count(remove: bool, before: int, now: int) -> int {
    if remove {
        if before >= now {
            before - now
        } else {
            0
        }
    } else {
        if now >= before {
            now - before
        } else {
            0
        }
    }
}

/// A search in progress, as plain values.
pub ghost struct SearchRunView {
    /// Whether what is found is removed from the selection, not added to it.
    pub remove: bool,
    /// How many records the selection held when the run began.
    pub before: nat,
    /// The request for the page that is due.
    pub query: MetadataSearchDtoView,
    /// Whether the last page has arrived.
    pub finished: bool,
}

/// A search in progress: the service is asked page by page, and what each
/// page holds is added to the selection, or removed from it, as it arrives.
#[derive(Debug)]
pub struct SearchRun {
    remove: bool,
    before: usize,
    query: MetadataSearchDto,
    finished: bool,
}

impl View for SearchRun {
    type V = SearchRunView;

    closed spec fn view(&self) -> SearchRunView {
        SearchRunView {
            remove: self.remove,
            before: self.before as nat,
            query: self.query@,
            finished: self.finished,
        }
    }
}

/// The number of the first page.
pub open spec fn first_page() -> Seq<char> {
    seq!['1']
}

impl SearchRun {
    /// Begins a run that asks for `query`, first for page `1`. A run that
    /// adds asks for what the cameras recorded as well.
    pub fn begin(remove: bool, query: MetadataSearchDto, assets: &Assets) -> (run: SearchRun)
        ensures
            run@ == (SearchRunView {
                remove,
                before: assets@.len(),
                query: MetadataSearchDtoView {
                    page: Some(first_page()),
                    with_exif: if remove {
                        query@.with_exif
                    } else {
                        Some(true)
                    },
                    ..query@
                },
                finished: false,
            }),
    {
        proof {
            reveal_strlit("1");
            assert("1"@ == first_page());
        }
        let mut query = query;
        query.page = Some(String::from_str("1"));
        if !remove {
            query.with_exif = Some(true);
        }
        SearchRun { remove, before: assets.len(), query, finished: false }
    }

    /// The request to send next, or nothing once the last page has arrived.
    pub fn request(&self) -> (query: Option<&MetadataSearchDto>)
        ensures
            match query {
                Some(q) => !self@.finished && q@ == self@.query,
                None => self@.finished,
            },
    {
        if self.finished {
            None
        } else {
            Some(&self.query)
        }
    }

    /// Takes the page that answers the last request: its records are added
    /// to the selection in their order, or what is stored under their
    /// identifiers is removed. The run goes on with `next_page` where the
    /// service named one, and is finished where it named none. A page that
    /// arrives after the last is ignored.
    pub fn page_arrived(
        &mut self,
        assets: &mut Assets,
        items: Vec<AssetRecord>,
        next_page: Option<String>,
    )
        ensures
            final(assets).path() == old(assets).path(),
            final(assets)@ == if old(self)@.finished {
                old(assets)@
            } else if old(self)@.remove {
                without_all(old(assets)@, record_views(items@))
            } else {
                with_all(old(assets)@, record_views(items@))
            },
            final(self)@ == if old(self)@.finished {
                old(self)@
            } else {
                SearchRunView {
                    finished: next_page is None,
                    query: MetadataSearchDtoView {
                        page: match next_page {
                            Some(token) => Some(token@),
                            None => old(self)@.query.page,
                        },
                        ..old(self)@.query
                    },
                    ..old(self)@
                }
            },
    {
        if self.finished {
            return ;
        }
        let ghost all = items@;
        let ghost was = assets@;
        let remove = self.remove;
        for item in it: items
            invariant
                it.seq() == all,
                assets.path() == old(assets).path(),
                assets@ == if remove {
                    without_all(was, record_views(all.take(it.index() as int)))
                } else {
                    with_all(was, record_views(all.take(it.index() as int)))
                },
        {
            proof {
                assert(record_views(all.take(it.index() + 1)).drop_last() == record_views(
                    all.take(it.index() as int),
                ));
            }
            if remove {
                assets.remove_asset(item.id.as_str());
            } else {
                assets.add_asset(item);
            }
        }
        assert(all.take(all.len() as int) == all);
        match next_page {
            Some(token) => {
                self.query.page = Some(token);
            },
            None => {
                self.finished = true;
            },
        }
    }

    /// How many records the run has added to, or removed from, the selection
    /// so far.
    pub fn changed(&self, assets: &Assets) -> (count: usize)
        ensures
            count == changed_count(self@.remove, self@.before as int, assets@.len() as int),
    {
        let now = assets.len();
        if self.remove {
            if self.before >= now {
                self.before - now
            } else {
                0
            }
        } else {
            if now >= self.before {
                now - self.before
            } else {
                0
            }
        }
    }
}

/// What a removal has done or has yet to do.
#[derive(Debug)]
pub enum Removal {
    /// The selection has answered: so many records are gone.
    Local { removed: usize },
    /// The service has to be asked: the run that does so.
    Remote(SearchRun),
}

/// What a removal by `args` comes to, given the service's lists: refused,
/// done on the selection alone, or a run against the service.
pub open spec fn removal_outcome(
    args: AssetSearchArgsView,
    tags: Seq<TagInfoView>,
    albums: Seq<AlbumInfoView>,
) -> Result<RemovalPlan, ErrorView> {
    match removal_plan(args) {
        Err(e) => Err(e),
        Ok(RemovalPlan::Local) => Ok(RemovalPlan::Local),
        Ok(RemovalPlan::Remote) => match search_dto(args, tags, albums) {
            Ok(_) => Ok(RemovalPlan::Remote),
            Err(e) => Err(e),
        },
    }
}

/// Whether `result` is what `expected` says.
pub open spec fn dto_is(
    result: Result<MetadataSearchDto, Error>,
    expected: Result<MetadataSearchDtoView, ErrorView>,
) -> bool {
    match result {
        Ok(dto) => expected == Ok::<MetadataSearchDtoView, ErrorView>(dto@),
        Err(e) => expected == Err::<MetadataSearchDtoView, ErrorView>(e@),
    }
}

impl ImmichCtl {
    /// Decides how a removal by `args` is carried out.
    pub fn plan_removal(args: &AssetSearchArgs) -> (r: Result<RemovalPlan, Error>)
        ensures
            match r {
                Ok(plan) => removal_plan(args@) == Ok::<RemovalPlan, ErrorView>(plan),
                Err(e) => removal_plan(args@) == Err::<RemovalPlan, ErrorView>(e@),
            },
    {
        if args.tag.is_some() || args.album.is_some() {
            if args.timezone.is_some() {
                Err(Error::TimezoneWithRemoteSearch)
            } else {
                Ok(RemovalPlan::Remote)
            }
        } else if args.id.is_none() && args.favorite.is_none() && args.taken_after.is_none()
            && args.taken_before.is_none() && args.timezone.is_none() {
            Err(Error::NoSearchFlag)
        } else {
            Ok(RemovalPlan::Local)
        }
    }

    /// Says which lists of the service a search by `args` needs, given what was
    /// found for the identifier that they name.
    pub fn lookups_needed(args: &AssetSearchArgs, id: Option<Option<u128>>) -> (r: Result<
        Lookups,
        Error,
    >)
        ensures
            match r {
                Ok(lists) => lookups_given(args@, id) == Ok::<Lookups, ErrorView>(lists),
                Err(e) => lookups_given(args@, id) == Err::<Lookups, ErrorView>(e@),
            },
    {
        let lists = Lookups { tags: args.tag.is_some(), albums: args.album.is_some() };
        let bad_id = match id {
            Some(None) => true,
            _ => false,
        };
        if args.remove {
            match Self::plan_removal(args) {
                Err(e) => Err(e),
                Ok(RemovalPlan::Local) => Ok(lists),
                Ok(RemovalPlan::Remote) => if bad_id {
                    Err(Error::InvalidAssetId)
                } else {
                    Ok(lists)
                },
            }
        } else if bad_id {
            Err(Error::InvalidAssetId)
        } else if args.id.is_none() && args.tag.is_none() && args.album.is_none()
            && args.favorite.is_none() && args.taken_after.is_none()
            && args.taken_before.is_none() {
            Err(Error::NoSearchFlag)
        } else {
            Ok(lists)
        }
    }

    /// Says which lists of the service a search by `args` needs, and refuses the
    /// search for every fault that shows without them, so that no call is made
    /// for a search that cannot be carried out.
    pub fn required_lookups(args: &AssetSearchArgs) -> (r: Result<Lookups, Error>)
        ensures
            match r {
                Ok(lists) => lookups_for(args@) == Ok::<Lookups, ErrorView>(lists),
                Err(e) => lookups_for(args@) == Err::<Lookups, ErrorView>(e@),
            },
    {
        let id = match &args.id {
            Some(text) => Some(parse_uuid(text.as_str())),
            None => None,
        };
        Self::lookups_needed(args, id)
    }

    /// Builds the request that searches by `args`, given what was found for the
    /// identifier, the tag and the album that they name.
    pub fn assemble_search_dto(
        args: &AssetSearchArgs,
        id: Option<Option<u128>>,
        tag: Option<Result<u128, Error>>,
        album: Option<Result<u128, Error>>,
    ) -> (r: Result<MetadataSearchDto, Error>)
        ensures
            dto_is(r, assemble_dto(args@, id, found_view(tag), found_view(album))),
    {
        let id = match id {
            Some(Some(id)) => Some(id),
            Some(None) => {
                return Err(Error::InvalidAssetId);
            },
            None => None,
        };
        let tag_ids = match tag {
            Some(Ok(tag_id)) => {
                let mut ids: Vec<u128> = Vec::new();
                ids.push(tag_id);
                assert(ids@ == seq![tag_id]);
                Some(ids)
            },
            Some(Err(e)) => {
                return Err(e);
            },
            None => None,
        };
        let mut album_ids: Vec<u128> = Vec::new();
        match album {
            Some(Ok(album_id)) => {
                album_ids.push(album_id);
                assert(album_ids@ == seq![album_id]);
            },
            Some(Err(e)) => {
                return Err(e);
            },
            None => {},
        }
        if id.is_none() && tag_ids.is_none() && album_ids.len() == 0 && args.favorite.is_none()
            && args.taken_after.is_none() && args.taken_before.is_none() {
            return Err(Error::NoSearchFlag);
        }
        let taken_after = match args.taken_after {
            Some(t) => Some(t.utc),
            None => None,
        };
        let taken_before = match args.taken_before {
            Some(t) => Some(t.utc),
            None => None,
        };
        Ok(
            MetadataSearchDto {
                id,
                tag_ids,
                album_ids,
                is_favorite: args.favorite,
                taken_after,
                taken_before,
                with_exif: None,
                page: None,
            },
        )
    }

    /// Builds the request that searches by `args`. `tags` and `albums` are the
    /// service's lists; each is read only where `args` names a tag or an album.
    pub fn build_search_dto(args: &AssetSearchArgs, tags: &[TagInfo], albums: &[AlbumInfo]) -> (r:
        Result<MetadataSearchDto, Error>)
        ensures
            dto_is(r, search_dto(args@, tag_views(tags@), album_views(albums@))),
    {
        let id = match &args.id {
            Some(text) => Some(parse_uuid(text.as_str())),
            None => None,
        };
        let tag = match &args.tag {
            Some(name) => Some(Self::find_tag_by_name(name.as_str(), tags)),
            None => None,
        };
        let album = match &args.album {
            Some(name) => Some(Self::find_album_by_name(name.as_str(), albums)),
            None => None,
        };
        Self::assemble_search_dto(args, id, tag, album)
    }

    /// Whether a local removal by `args` removes `asset`.
    pub fn matches_locally(args: &AssetSearchArgs, asset: &AssetRecord) -> (b: bool)
        ensures
            b == removes(args@, asset@),
    {
        match &args.id {
            Some(id) => {
                if !(asset.id == *id) {
                    return false;
                }
            },
            None => {},
        }
        match args.favorite {
            Some(favorite) => {
                if asset.is_favorite != favorite {
                    return false;
                }
            },
            None => {},
        }
        let taken = Self::get_date_time_original(asset);
        match args.taken_after {
            Some(after) => {
                if !after.utc.lt(&taken.utc) {
                    return false;
                }
            },
            None => {},
        }
        match args.taken_before {
            Some(before) => {
                if !taken.utc.lt(&before.utc) {
                    return false;
                }
            },
            None => {},
        }
        match args.timezone {
            Some(offset) => {
                if Self::asset_filed_offset(asset).local_minus_utc() != offset.local_minus_utc() {
                    return false;
                }
            },
            None => {},
        }
        true
    }

    /// Removes from the selection what `args` removes, and says how many records
    /// that were.
    pub fn remove_local(assets: &mut Assets, args: &AssetSearchArgs) -> (removed: usize)
        ensures
            final(assets)@ == after_local_removal(old(assets)@, args@),
            final(assets).order() == old(assets).order().filter(
                |k: Seq<char>| final(assets)@.contains_key(k),
            ),
            final(assets).path() == old(assets).path(),
            removed == old(assets)@.len() - final(assets)@.len(),
    {
        proof {
            use_type_invariant(&*assets);
            assets.lemma_view();
        }
        let before = assets.len();
        let keep = |asset: &AssetRecord| -> (keep: bool)
            ensures
                keep == !removes(args@, asset@),
            { !Self::matches_locally(args, asset) };
        assets.retain(keep);
        proof {
            use_type_invariant(&*assets);
            assets.lemma_view();
            let was = old(assets)@;
            let order = old(assets).order();
            assert forall|k: Seq<char>| #[trigger]
                assets@.contains_key(k) == after_local_removal(was, args@).contains_key(k) by {
                if was.contains_key(k) {
                    assert(order.to_set().contains(k));
                    let i = order.index_of(k);
                    assert(order[i] == k);
                    assert(was[order[i]] == old(assets).records()[i]@);
                }
            }
            assert(assets@ =~= after_local_removal(was, args@));
            vstd::set_lib::lemma_len_subset(assets@.dom(), was.dom());
        }
        before - assets.len()
    }

    /// Begins the search that adds to the selection what the service finds by
    /// `args`.
    pub fn assets_search_add(
        assets: &Assets,
        args: &AssetSearchArgs,
        tags: &[TagInfo],
        albums: &[AlbumInfo],
    ) -> (r: Result<SearchRun, Error>)
        ensures
            match r {
                Ok(run) => search_dto(args@, tag_views(tags@), album_views(albums@)) matches Ok(dto)
                    && run@ == (SearchRunView {
                    remove: false,
                    before: assets@.len(),
                    query: MetadataSearchDtoView {
                        page: Some(first_page()),
                        with_exif: Some(true),
                        ..dto
                    },
                    finished: false,
                }),
                Err(e) => search_dto(args@, tag_views(tags@), album_views(albums@)) == Err::<
                    MetadataSearchDtoView,
                    ErrorView,
                >(e@),
            },
    {
        match Self::build_search_dto(args, tags, albums) {
            Ok(query) => Ok(SearchRun::begin(false, query, assets)),
            Err(e) => Err(e),
        }
    }

    /// Removes from the selection what `args` name. Where the selection can
    /// answer, it does, and no call is made; where only the service can, the run
    /// that asks it is begun, and nothing is removed yet. A removal that is
    /// refused leaves the selection as it is.
    pub fn assets_search_remove(
        assets: &mut Assets,
        args: &AssetSearchArgs,
        tags: &[TagInfo],
        albums: &[AlbumInfo],
    ) -> (r: Result<Removal, Error>)
        ensures
            final(assets).path() == old(assets).path(),
            match r {
                Ok(Removal::Local { removed }) => {
                    &&& removal_outcome(args@, tag_views(tags@), album_views(albums@)) == Ok::<
                        RemovalPlan,
                        ErrorView,
                    >(RemovalPlan::Local)
                    &&& final(assets)@ == after_local_removal(old(assets)@, args@)
                    &&& removed == old(assets)@.len() - final(assets)@.len()
                },
                Ok(Removal::Remote(run)) => {
                    &&& removal_outcome(args@, tag_views(tags@), album_views(albums@)) == Ok::<
                        RemovalPlan,
                        ErrorView,
                    >(RemovalPlan::Remote)
                    &&& final(assets)@ == old(assets)@
                    &&& final(assets).order() == old(assets).order()
                    &&& search_dto(args@, tag_views(tags@), album_views(albums@)) matches Ok(dto)
                        && run@ == (SearchRunView {
                        remove: true,
                        before: old(assets)@.len(),
                        query: MetadataSearchDtoView { page: Some(first_page()), ..dto },
                        finished: false,
                    })
                },
                Err(e) => {
                    &&& removal_outcome(args@, tag_views(tags@), album_views(albums@)) == Err::<
                        RemovalPlan,
                        ErrorView,
                    >(e@)
                    &&& final(assets)@ == old(assets)@
                    &&& final(assets).order() == old(assets).order()
                },
            },
    {
        match Self::plan_removal(args) {
            Err(e) => Err(e),
            Ok(RemovalPlan::Local) => {
                let removed = Self::remove_local(assets, args);
                Ok(Removal::Local { removed })
            },
            Ok(RemovalPlan::Remote) => match Self::build_search_dto(args, tags, albums) {
                Ok(query) => Ok(Removal::Remote(SearchRun::begin(true, query, assets))),
                Err(e) => Err(e),
            },
        }
    }
}

/// A local removal that goes by the capture time alone, with both bounds
/// given, removes exactly the records taken strictly between the bounds: what
/// stays was taken at or before the first, or at or after the second.
pub proof fn lemma_removal_by_capture_time(
    store: Map<Seq<char>, AssetRecordView>,
    args: AssetSearchArgsView,
    key: Seq<char>,
)
    requires
        args.id is None,
        args.favorite is None,
        args.timezone is None,
        args.taken_after is Some,
        args.taken_before is Some,
    ensures
        after_local_removal(store, args).contains_key(key) <==> store.contains_key(key) && !(
        args.taken_after->0.instant < taken_at(store[key]).instant
            < args.taken_before->0.instant),
        after_local_removal(store, args).contains_key(key) ==> after_local_removal(store, args)[key]
            == store[key],
{
}

/// Pages are merged as if they were one: to add a page and then another is
/// to add the records of both in their order, so that of two records with
/// one identifier the later one stays, also across pages.
pub proof fn lemma_pages_merge_in_order(
    store: Map<Seq<char>, AssetRecordView>,
    first: Seq<AssetRecordView>,
    second: Seq<AssetRecordView>,
)
    ensures
        with_all(with_all(store, first), second) == with_all(store, first + second),
        second.len() > 0 ==> with_all(store, first + second)[second.last().id] == second.last(),
    decreases second.len(),
{
    if second.len() == 0 {
        assert(first + second == first);
    } else {
        lemma_pages_merge_in_order(store, first, second.drop_last());
        assert((first + second).drop_last() == first + second.drop_last());
        assert((first + second).last() == second.last());
    }
}

/// What the pages of a removal name is gone afterwards, and what they do not
/// name stays as it was.
pub proof fn lemma_removed_pages_are_gone(
    store: Map<Seq<char>, AssetRecordView>,
    items: Seq<AssetRecordView>,
    key: Seq<char>,
)
    ensures
        without_all(store, items).contains_key(key) <==> store.contains_key(key) && forall|i: int|
            0 <= i < items.len() ==> (#[trigger] items[i]).id != key,
        without_all(store, items).contains_key(key) ==> without_all(store, items)[key]
            == store[key],
    decreases items.len(),
{
    if items.len() > 0 {
        let front = items.drop_last();
        lemma_removed_pages_are_gone(store, front, key);
        if forall|i: int| 0 <= i < items.len() ==> (#[trigger] items[i]).id != key {
            assert forall|i: int| 0 <= i < front.len() implies (#[trigger] front[i]).id != key by {
                assert(front[i] == items[i]);
            }
            assert(items[items.len() - 1].id != key);
        } else {
            let i = choose|i: int| 0 <= i < items.len() && (#[trigger] items[i]).id == key;
            if i < front.len() {
                assert(front[i] == items[i]);
            }
        }
    }
}

/// A removal that asks for an offset together with a tag or an album is
/// refused, whatever else it asks for and whatever the service lists.
pub proof fn lemma_offset_with_tag_or_album_is_refused(
    args: AssetSearchArgsView,
    tags: Seq<TagInfoView>,
    albums: Seq<AlbumInfoView>,
)
    requires
        args.timezone is Some,
        args.tag is Some || args.album is Some,
    ensures
        removal_plan(args) == Err::<RemovalPlan, ErrorView>(ErrorView::TimezoneWithRemoteSearch),
        removal_outcome(args, tags, albums) == Err::<RemovalPlan, ErrorView>(
            ErrorView::TimezoneWithRemoteSearch,
        ),
        args.remove ==> lookups_for(args) == Err::<Lookups, ErrorView>(
            ErrorView::TimezoneWithRemoteSearch,
        ),
{
}

} // verus!
