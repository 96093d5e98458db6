//! Tags and albums by name.

use vstd::prelude::*;
use crate::error::{Error, ErrorView};
use crate::ident::{parse_uuid, uuid_value};

use crate::immichctl::ImmichCtl;
verus! {

/// A tag as the service lists it.
#[derive(Debug)]
pub struct TagInfo {
    /// The tag's identifier.
    pub id: String,
    /// The tag's own name, without those of its parents.
    pub name: String,
    /// The tag's full name: the names from the root down, joined by `/`.
    pub value: String,
}

/// An album as the service lists it.
#[derive(Debug)]
pub struct AlbumInfo {
    /// The album's identifier.
    pub id: String,
    /// The album's name.
    pub album_name: String,
}

/// How many things go by a name.
#[derive(Clone, Copy, Debug, PartialEq, Eq, Structural)]
pub enum Named {
    /// None does.
    Nothing,
    /// Exactly one does: the one at this place of the list.
    One(usize),
    /// More than one does.
    Several,
}

/// A tag as plain values.
pub ghost struct TagInfoView {
    pub id: Seq<char>,
    pub name: Seq<char>,
    pub value: Seq<char>,
}

/// An album as plain values.
pub ghost struct AlbumInfoView {
    pub id: Seq<char>,
    pub album_name: Seq<char>,
}

impl View for TagInfo {
    type V = TagInfoView;

    open spec fn view(&self) -> TagInfoView {
        TagInfoView { id: self.id@, name: self.name@, value: self.value@ }
    }
}

impl View for AlbumInfo {
    type V = AlbumInfoView;

    open spec fn view(&self) -> AlbumInfoView {
        AlbumInfoView { id: self.id@, album_name: self.album_name@ }
    }
}

/// The tags as plain values.
pub open spec fn tag_views(tags: Seq<TagInfo>) -> Seq<TagInfoView> {
    Seq::new(tags.len(), |i: int| tags[i]@)
}

/// The albums as plain values.
pub open spec fn album_views(albums: Seq<AlbumInfo>) -> Seq<AlbumInfoView> {
    Seq::new(albums.len(), |i: int| albums[i]@)
}

/// The tags that go by `name`, be it their own or their full name.
pub open spec fn tags_named(name: Seq<char>, tags: Seq<TagInfoView>) -> Seq<TagInfoView> {
    tags.filter(|t: TagInfoView| t.name == name || t.value == name)
}

/// The albums that go by `name`.
pub open spec fn albums_named(name: Seq<char>, albums: Seq<AlbumInfoView>) -> Seq<AlbumInfoView> {
    albums.filter(|a: AlbumInfoView| a.album_name == name)
}

/// The identifier of the one tag that goes by `name`, where there is exactly
/// one and its identifier is a UUID.
pub open spec fn tag_by_name(name: Seq<char>, tags: Seq<TagInfoView>) -> Option<u128> {
    if tags_named(name, tags).len() == 1 {
        uuid_value(tags_named(name, tags)[0].id)
    } else {
        None
    }
}

/// The identifier of the one tag that goes by `name`, or why there is none.
pub open spec fn tag_id_by_name(name: Seq<char>, tags: Seq<TagInfoView>) -> Result<
    u128,
    ErrorView,
> {
    match tag_by_name(name, tags) {
        Some(id) => Ok(id),
        None => Err(ErrorView::TagNotFound(name)),
    }
}

/// The identifier of the one album that goes by `name`, or why there is none.
pub open spec fn album_id_by_name(name: Seq<char>, albums: Seq<AlbumInfoView>) -> Result<
    u128,
    ErrorView,
> {
    let found = albums_named(name, albums);
    if found.len() == 0 {
        Err(ErrorView::AlbumNotFound(name))
    } else if found.len() > 1 {
        Err(ErrorView::AlbumNotUnique(name))
    } else {
        match uuid_value(found[0].id) {
            Some(id) => Ok(id),
            None => Err(ErrorView::InvalidAlbumId(name)),
        }
    }
}

/// Whether `result` is what `expected` says, error for error.
pub open spec fn result_is(result: Result<u128, Error>, expected: Result<u128, ErrorView>) -> bool {
    match result {
        Ok(id) => expected == Ok::<u128, ErrorView>(id),
        Err(e) => expected == Err::<u128, ErrorView>(e@),
    }
}

/// Whether `found` says how many of `all` pass `test`, and which one where it
/// is one.
pub open spec fn names<T>(found: Named, all: Seq<T>, test: spec_fn(T) -> bool) -> bool {
    match found {
        Named::Nothing => all.filter(test).len() == 0,
        Named::One(i) => all.filter(test).len() == 1 && i < all.len() && all.filter(test)[0]
            == all[i as int],
        Named::Several => all.filter(test).len() > 1,
    }
}

impl ImmichCtl {
    /// How many tags go by `name`, be it their own or their full name.
    pub fn tags_by_name(name: &str, tags: &[TagInfo]) -> (found: Named)
        ensures
            names(found, tag_views(tags@), |t: TagInfoView| t.name == name@ || t.value == name@),
    {
        let wanted = name.to_owned();
        let ghost all = tag_views(tags@);
        let ghost test = |t: TagInfoView| t.name == name@ || t.value == name@;
        let n = tags.len();
        let mut count: usize = 0;
        let mut first: usize = 0;
        let mut i: usize = 0;
        proof {
            reveal(Seq::filter);
            assert(all.take(0) == Seq::<TagInfoView>::empty());
        }
        while i < n
            invariant
                i <= n == tags@.len(),
                all == tag_views(tags@),
                wanted@ == name@,
                test == |t: TagInfoView| t.name == name@ || t.value == name@,
                count == all.take(i as int).filter(test).len(),
                count <= i,
                count > 0 ==> first < i && all.take(i as int).filter(test)[0] == all[first as int],
            decreases n - i,
        {
            proof {
                reveal(Seq::filter);
                assert(all.take(i + 1).drop_last() == all.take(i as int));
            }
            if tags[i].name == wanted || tags[i].value == wanted {
                if count == 0 {
                    first = i;
                }
                count += 1;
            }
            i += 1;
        }
        assert(all.take(n as int) == all);
        if count == 0 {
            Named::Nothing
        } else if count == 1 {
            Named::One(first)
        } else {
            Named::Several
        }
    }

    /// How many albums go by `name`.
    pub fn albums_by_name(name: &str, albums: &[AlbumInfo]) -> (found: Named)
        ensures
            names(found, album_views(albums@), |a: AlbumInfoView| a.album_name == name@),
    {
        let wanted = name.to_owned();
        let ghost all = album_views(albums@);
        let ghost test = |a: AlbumInfoView| a.album_name == name@;
        let n = albums.len();
        let mut count: usize = 0;
        let mut first: usize = 0;
        let mut i: usize = 0;
        proof {
            reveal(Seq::filter);
            assert(all.take(0) == Seq::<AlbumInfoView>::empty());
        }
        while i < n
            invariant
                i <= n == albums@.len(),
                all == album_views(albums@),
                wanted@ == name@,
                test == |a: AlbumInfoView| a.album_name == name@,
                count == all.take(i as int).filter(test).len(),
                count <= i,
                count > 0 ==> first < i && all.take(i as int).filter(test)[0] == all[first as int],
            decreases n - i,
        {
            proof {
                reveal(Seq::filter);
                assert(all.take(i + 1).drop_last() == all.take(i as int));
            }
            if albums[i].album_name == wanted {
                if count == 0 {
                    first = i;
                }
                count += 1;
            }
            i += 1;
        }
        assert(all.take(n as int) == all);
        if count == 0 {
            Named::Nothing
        } else if count == 1 {
            Named::One(first)
        } else {
            Named::Several
        }
    }

    /// The identifier of the one tag that goes by `name`, be it the tag's own or
    /// its full name, or nothing where no tag or more than one does.
    pub fn _find_tag_by_name(name: &str, tags: &[TagInfo]) -> (id: Option<u128>)
        ensures
            id == tag_by_name(name@, tag_views(tags@)),
    {
        match Self::tags_by_name(name, tags) {
            Named::One(i) => parse_uuid(tags[i].id.as_str()),
            _ => None,
        }
    }

    /// The identifier of the one tag that goes by `name`.
    pub fn find_tag_by_name(name: &str, tags: &[TagInfo]) -> (r: Result<u128, Error>)
        ensures
            result_is(r, tag_id_by_name(name@, tag_views(tags@))),
    {
        match Self::_find_tag_by_name(name, tags) {
            Some(id) => Ok(id),
            None => Err(Error::TagNotFound(name.to_owned())),
        }
    }

    /// The identifier of the one album that goes by `name`.
    pub fn find_album_by_name(name: &str, albums: &[AlbumInfo]) -> (r: Result<u128, Error>)
        ensures
            result_is(r, album_id_by_name(name@, album_views(albums@))),
    {
        match Self::albums_by_name(name, albums) {
            Named::Nothing => Err(Error::AlbumNotFound(name.to_owned())),
            Named::Several => Err(Error::AlbumNotUnique(name.to_owned())),
            Named::One(i) => match parse_uuid(albums[i].id.as_str()) {
                Some(id) => Ok(id),
                None => Err(Error::InvalidAlbumId(name.to_owned())),
            },
        }
    }
}

} // verus!
