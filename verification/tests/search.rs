use chrono::{DateTime, TimeZone, Utc};
use immichctl::asset::AssetRecord;
use immichctl::assets::Assets;
use immichctl::error::{Error, ErrorKind};
use immichctl::immichctl::ImmichCtl;
use immichctl::lookup::{AlbumInfo, TagInfo};
use immichctl::search::{
    AssetSearchArgs, Lookups, MetadataSearchDto, Removal, RemovalPlan, SearchRun,
};
use immichctl::time::{OffsetDateTime, Timestamp};
use immichctl::timezone::TimezoneOffset;
use uuid::Uuid;

fn ts(t: DateTime<Utc>) -> Timestamp {
    Timestamp::from_timestamp(t.timestamp(), t.timestamp_subsec_nanos()).unwrap()
}

fn at(t: DateTime<Utc>) -> OffsetDateTime {
    OffsetDateTime {
        utc: ts(t),
        offset: TimezoneOffset::utc(),
    }
}

fn no_args() -> AssetSearchArgs {
    AssetSearchArgs {
        remove: false,
        id: None,
        tag: None,
        album: None,
        favorite: None,
        taken_after: None,
        taken_before: None,
        timezone: None,
    }
}

fn empty_dto() -> MetadataSearchDto {
    MetadataSearchDto {
        id: None,
        tag_ids: None,
        album_ids: vec![],
        is_favorite: None,
        taken_after: None,
        taken_before: None,
        with_exif: None,
        page: None,
    }
}

fn same(a: &MetadataSearchDto, b: &MetadataSearchDto) -> bool {
    a.id == b.id
        && a.tag_ids == b.tag_ids
        && a.album_ids == b.album_ids
        && a.is_favorite == b.is_favorite
        && a.taken_after == b.taken_after
        && a.taken_before == b.taken_before
        && a.with_exif == b.with_exif
        && a.page == b.page
}

fn create_asset_with_timestamps(
    file_created_at: DateTime<Utc>,
    local_date_time: DateTime<Utc>,
) -> AssetRecord {
    AssetRecord {
        id: Uuid::new_v4().to_string(),
        original_file_name: "test.jpg".to_string(),
        file_created_at: ts(file_created_at),
        local_date_time: ts(local_date_time),
        exif_time_zone: None,
        exif_date_time_original: None,
        is_favorite: false,
        passthrough: String::new(),
    }
}

fn copy(asset: &AssetRecord) -> AssetRecord {
    AssetRecord {
        id: asset.id.clone(),
        original_file_name: asset.original_file_name.clone(),
        file_created_at: asset.file_created_at,
        local_date_time: asset.local_date_time,
        exif_time_zone: asset.exif_time_zone.clone(),
        exif_date_time_original: asset.exif_date_time_original,
        is_favorite: asset.is_favorite,
        passthrough: asset.passthrough.clone(),
    }
}

fn tag(id: &str, value: &str) -> TagInfo {
    TagInfo {
        id: id.to_string(),
        name: value.split('/').last().unwrap_or(value).to_string(),
        value: value.to_string(),
    }
}

fn album(id: &str, name: &str) -> AlbumInfo {
    AlbumInfo {
        id: id.to_string(),
        album_name: name.to_string(),
    }
}

fn ids(assets: &Assets) -> Vec<String> {
    assets.iter_assets().iter().map(|a| a.id.clone()).collect()
}

#[test]
fn asset_cmd_test_build_search_dto_no_flags() {
    let result = ImmichCtl::build_search_dto(&no_args(), &[], &[]);

    assert!(result.is_err());
    assert_eq!(
        result.err().unwrap().to_string(),
        "Please provide at least one search flag."
    );
}

#[test]
fn asset_cmd_test_build_search_dto_with_id() {
    let args = AssetSearchArgs {
        id: Some("a1a7f1a9-7394-49f7-a5a3-e876a7e16ab1".to_string()),
        ..no_args()
    };
    let mut result = ImmichCtl::build_search_dto(&args, &[], &[]);
    assert!(result.is_ok());
    assert!(same(
        &result.unwrap(),
        &MetadataSearchDto {
            id: Some(
                Uuid::parse_str("a1a7f1a9-7394-49f7-a5a3-e876a7e16ab1")
                    .unwrap()
                    .as_u128()
            ),
            ..empty_dto()
        }
    ));

    let args = AssetSearchArgs {
        id: Some("no-uuid".to_string()),
        ..no_args()
    };
    result = ImmichCtl::build_search_dto(&args, &[], &[]);
    assert!(result.is_err());
    assert_eq!(
        result.err().unwrap().to_string(),
        "Invalid asset id, expected uuid"
    );
}

#[test]
fn asset_cmd_test_build_search_dto_with_tag() {
    let tags = vec![tag("a1a7f1a9-7394-49f7-a5a3-e876a7e16ab1", "tag1")];

    let args = AssetSearchArgs {
        tag: Some("tag1".to_string()),
        ..no_args()
    };
    let mut result = ImmichCtl::build_search_dto(&args, &tags, &[]);
    assert!(result.is_ok());
    assert!(same(
        &result.unwrap(),
        &MetadataSearchDto {
            tag_ids: Some(vec!(Uuid::parse_str("a1a7f1a9-7394-49f7-a5a3-e876a7e16ab1")
                .unwrap()
                .as_u128())),
            ..empty_dto()
        }
    ));

    let args = AssetSearchArgs {
        tag: Some("no-tag".to_string()),
        ..no_args()
    };
    result = ImmichCtl::build_search_dto(&args, &tags, &[]);
    assert!(result.is_err());
    assert_eq!(
        result.err().unwrap().to_string(),
        "Tag not found or not unique: 'no-tag'"
    );
}

#[test]
fn asset_cmd_test_build_search_dto_with_album() {
    let albums = vec![album("a1a7f1a9-7394-49f7-a5a3-e876a7e16ab1", "album1")];

    let args = AssetSearchArgs {
        album: Some("album1".to_string()),
        ..no_args()
    };
    let mut result = ImmichCtl::build_search_dto(&args, &[], &albums);
    assert!(result.is_ok());
    assert!(same(
        &result.unwrap(),
        &MetadataSearchDto {
            album_ids: vec!(Uuid::parse_str("a1a7f1a9-7394-49f7-a5a3-e876a7e16ab1")
                .unwrap()
                .as_u128()),
            ..empty_dto()
        }
    ));

    let args = AssetSearchArgs {
        album: Some("no-album".to_string()),
        ..no_args()
    };
    result = ImmichCtl::build_search_dto(&args, &[], &albums);
    assert!(result.is_err());
    assert_eq!(
        result.err().unwrap().to_string(),
        "Album not found: 'no-album'"
    );
}

#[test]
fn test_build_search_dto_with_favorite() {
    let args = AssetSearchArgs {
        favorite: Some(true),
        ..no_args()
    };
    let result = ImmichCtl::build_search_dto(&args, &[], &[]);

    assert!(result.is_ok());
    let search_dto = result.unwrap();
    assert_eq!(search_dto.is_favorite, Some(true));
}

#[test]
fn test_build_search_dto_with_taken_before_after() {
    let taken_after_str = "2024-07-18T00:00:00+00:00";
    let taken_before_str = "2024-07-18T23:59:59+00:00";
    let taken_after = DateTime::parse_from_rfc3339(taken_after_str).ok();
    let taken_before = DateTime::parse_from_rfc3339(taken_before_str).ok();

    let args = AssetSearchArgs {
        taken_after: taken_after.map(|t| at(t.with_timezone(&Utc))),
        taken_before: taken_before.map(|t| at(t.with_timezone(&Utc))),
        ..no_args()
    };
    let result = ImmichCtl::build_search_dto(&args, &[], &[]);

    assert!(result.is_ok());
    let search_dto = result.unwrap();
    assert_eq!(
        search_dto.taken_after,
        Some(ts(taken_after.unwrap().with_timezone(&Utc)))
    );
    assert_eq!(
        search_dto.taken_before,
        Some(ts(taken_before.unwrap().with_timezone(&Utc)))
    );
}

#[test]
fn build_search_dto_reports_the_first_fault() {
    let tags = vec![tag("a1a7f1a9-7394-49f7-a5a3-e876a7e16ab1", "tag1")];
    let albums = vec![
        album("a1a7f1a9-7394-49f7-a5a3-e876a7e16ab2", "twice"),
        album("a1a7f1a9-7394-49f7-a5a3-e876a7e16ab3", "twice"),
    ];
    let args = AssetSearchArgs {
        id: Some("no-uuid".to_string()),
        tag: Some("no-tag".to_string()),
        album: Some("twice".to_string()),
        ..no_args()
    };
    let e = ImmichCtl::build_search_dto(&args, &tags, &albums).err().unwrap();
    assert!(matches!(e, Error::InvalidAssetId));
    assert_eq!(e.kind(), ErrorKind::Validation);

    let args = AssetSearchArgs {
        id: None,
        ..args
    };
    let e = ImmichCtl::build_search_dto(&args, &tags, &albums).err().unwrap();
    assert!(matches!(e, Error::TagNotFound(_)));
    assert_eq!(e.kind(), ErrorKind::NotFound);

    let args = AssetSearchArgs {
        tag: Some("tag1".to_string()),
        ..args
    };
    let e = ImmichCtl::build_search_dto(&args, &tags, &albums).err().unwrap();
    assert_eq!(e.to_string(), "Album name is not unique: 'twice'");
    assert_eq!(e.kind(), ErrorKind::NotFound);

    // the offset is nothing that the service can search by
    let args = AssetSearchArgs {
        timezone: TimezoneOffset::east_opt(3600),
        ..no_args()
    };
    let e = ImmichCtl::build_search_dto(&args, &tags, &albums).err().unwrap();
    assert!(matches!(e, Error::NoSearchFlag));
}

#[test]
fn build_search_dto_takes_every_criterion() {
    let tags = vec![tag("a1a7f1a9-7394-49f7-a5a3-e876a7e16ab1", "root/tag1")];
    let albums = vec![album("a1a7f1a9-7394-49f7-a5a3-e876a7e16ab2", "album1")];
    let after = Utc.with_ymd_and_hms(2024, 1, 1, 12, 0, 0).unwrap();
    let before = Utc.with_ymd_and_hms(2024, 1, 2, 12, 0, 0).unwrap();
    let args = AssetSearchArgs {
        remove: false,
        id: Some("A1A7F1A9-7394-49F7-A5A3-E876A7E16AB9".to_string()),
        tag: Some("tag1".to_string()),
        album: Some("album1".to_string()),
        favorite: Some(false),
        taken_after: Some(OffsetDateTime {
            utc: ts(after),
            offset: TimezoneOffset::east_opt(7200).unwrap(),
        }),
        taken_before: Some(at(before)),
        timezone: None,
    };
    let dto = ImmichCtl::build_search_dto(&args, &tags, &albums).unwrap();
    assert!(same(
        &dto,
        &MetadataSearchDto {
            id: Some(0xa1a7f1a9_7394_49f7_a5a3_e876a7e16ab9),
            tag_ids: Some(vec![0xa1a7f1a9_7394_49f7_a5a3_e876a7e16ab1]),
            album_ids: vec![0xa1a7f1a9_7394_49f7_a5a3_e876a7e16ab2],
            is_favorite: Some(false),
            taken_after: Some(ts(after)),
            taken_before: Some(ts(before)),
            with_exif: None,
            page: None,
        }
    ));
}

#[test]
fn test_assets_search_remove_by_id() {
    let asset1 = create_asset_with_timestamps(
        Utc.with_ymd_and_hms(2024, 1, 1, 10, 0, 0).unwrap(),
        Utc.with_ymd_and_hms(2024, 1, 1, 12, 0, 0).unwrap(),
    );
    let asset2 = create_asset_with_timestamps(
        Utc.with_ymd_and_hms(2024, 1, 2, 10, 0, 0).unwrap(),
        Utc.with_ymd_and_hms(2024, 1, 2, 12, 0, 0).unwrap(),
    );
    let asset_to_remove_id = asset1.id.clone();

    let mut assets = Assets::load("assets.json", None);
    assets.add_asset(asset1);
    assets.add_asset(asset2);

    let args = AssetSearchArgs {
        remove: true,
        id: Some(asset_to_remove_id.clone()),
        ..no_args()
    };

    let result = ImmichCtl::assets_search_remove(&mut assets, &args, &[], &[]);
    assert!(result.is_ok());
    assert!(matches!(result.unwrap(), Removal::Local { removed: 1 }));

    assert_eq!(assets.len(), 1);
    assert!(assets
        .iter_assets()
        .iter()
        .all(|a| a.id != asset_to_remove_id));
}

#[test]
fn test_assets_search_remove_by_taken_after_and_before() {
    let asset1 = create_asset_with_timestamps(
        Utc.with_ymd_and_hms(2024, 1, 1, 10, 0, 0).unwrap(),
        Utc.with_ymd_and_hms(2024, 1, 1, 10, 0, 0).unwrap(),
    );

    let asset2_ts = Utc.with_ymd_and_hms(2024, 1, 2, 10, 0, 0).unwrap();
    let asset2 = create_asset_with_timestamps(asset2_ts, asset2_ts);

    let asset3 = create_asset_with_timestamps(
        Utc.with_ymd_and_hms(2024, 1, 3, 10, 0, 0).unwrap(),
        Utc.with_ymd_and_hms(2024, 1, 3, 10, 0, 0).unwrap(),
    );

    let mut assets = Assets::load("assets.json", None);
    assets.add_asset(copy(&asset1));
    assets.add_asset(copy(&asset2));
    assets.add_asset(copy(&asset3));

    let args = AssetSearchArgs {
        remove: true,
        taken_after: Some(at(Utc.with_ymd_and_hms(2024, 1, 1, 12, 0, 0).unwrap())),
        taken_before: Some(at(Utc.with_ymd_and_hms(2024, 1, 2, 12, 0, 0).unwrap())),
        ..no_args()
    };

    let result = ImmichCtl::assets_search_remove(&mut assets, &args, &[], &[]);
    assert!(result.is_ok());

    assert_eq!(assets.len(), 2);
    let remaining_ids: Vec<_> = assets.iter_assets().iter().map(|a| &a.id).collect();
    assert!(remaining_ids.contains(&&asset1.id));
    assert!(remaining_ids.contains(&&asset3.id));
}

#[test]
fn test_assets_search_remove_bad_params() {
    let mut assets = Assets::load("assets.json", None);
    let args = AssetSearchArgs {
        remove: true,
        tag: Some("tag1".to_string()),
        timezone: Some(TimezoneOffset::east_opt(2 * 3600).unwrap()),
        ..no_args()
    };

    let result = ImmichCtl::assets_search_remove(&mut assets, &args, &[], &[]);
    assert!(result.is_err());
}

#[test]
fn refused_removal_leaves_the_selection_alone() {
    let mut assets = Assets::new(String::new());
    let kept = create_asset_with_timestamps(
        Utc.with_ymd_and_hms(2024, 1, 1, 10, 0, 0).unwrap(),
        Utc.with_ymd_and_hms(2024, 1, 1, 12, 0, 0).unwrap(),
    );
    let kept_id = kept.id.clone();
    assets.add_asset(kept);
    let tags = vec![tag("a1a7f1a9-7394-49f7-a5a3-e876a7e16ab1", "tag1")];
    let albums = vec![album("a1a7f1a9-7394-49f7-a5a3-e876a7e16ab2", "album1")];

    for args in [
        AssetSearchArgs {
            remove: true,
            tag: Some("tag1".to_string()),
            timezone: TimezoneOffset::east_opt(2 * 3600),
            ..no_args()
        },
        AssetSearchArgs {
            remove: true,
            album: Some("album1".to_string()),
            id: Some(kept_id.clone()),
            timezone: TimezoneOffset::east_opt(2 * 3600),
            ..no_args()
        },
    ] {
        assert_eq!(
            ImmichCtl::required_lookups(&args).err().unwrap().to_string(),
            "The --timezone option cannot be used together with other search options when multiple filters are applied."
        );
        let e = ImmichCtl::assets_search_remove(&mut assets, &args, &tags, &albums)
            .err()
            .unwrap();
        assert!(matches!(e, Error::TimezoneWithRemoteSearch));
        assert_eq!(e.kind(), ErrorKind::Validation);
        assert_eq!(ids(&assets), [kept_id.clone()]);
    }

    // nothing to go by
    let args = AssetSearchArgs {
        remove: true,
        ..no_args()
    };
    let e = ImmichCtl::assets_search_remove(&mut assets, &args, &tags, &albums)
        .err()
        .unwrap();
    assert!(matches!(e, Error::NoSearchFlag));
    assert_eq!(ids(&assets), [kept_id.clone()]);

    // a tag that is not there
    let args = AssetSearchArgs {
        remove: true,
        tag: Some("other".to_string()),
        ..no_args()
    };
    let e = ImmichCtl::assets_search_remove(&mut assets, &args, &tags, &albums)
        .err()
        .unwrap();
    assert!(matches!(e, Error::TagNotFound(_)));
    assert_eq!(ids(&assets), [kept_id]);
}

#[test]
fn removal_plans() {
    let plan = |args: &AssetSearchArgs| ImmichCtl::plan_removal(args).ok();
    let base = || AssetSearchArgs {
        remove: true,
        ..no_args()
    };
    assert_eq!(plan(&base()), None);
    assert_eq!(
        plan(&AssetSearchArgs {
            id: Some("x".to_string()),
            ..base()
        }),
        Some(RemovalPlan::Local)
    );
    assert_eq!(
        plan(&AssetSearchArgs {
            favorite: Some(false),
            ..base()
        }),
        Some(RemovalPlan::Local)
    );
    assert_eq!(
        plan(&AssetSearchArgs {
            timezone: Some(TimezoneOffset::utc()),
            ..base()
        }),
        Some(RemovalPlan::Local)
    );
    assert_eq!(
        plan(&AssetSearchArgs {
            taken_before: Some(at(Utc.with_ymd_and_hms(2024, 1, 1, 0, 0, 0).unwrap())),
            ..base()
        }),
        Some(RemovalPlan::Local)
    );
    assert_eq!(
        plan(&AssetSearchArgs {
            tag: Some("t".to_string()),
            favorite: Some(true),
            ..base()
        }),
        Some(RemovalPlan::Remote)
    );
    assert_eq!(
        plan(&AssetSearchArgs {
            album: Some("a".to_string()),
            ..base()
        }),
        Some(RemovalPlan::Remote)
    );
    assert_eq!(
        plan(&AssetSearchArgs {
            album: Some("a".to_string()),
            timezone: Some(TimezoneOffset::utc()),
            ..base()
        }),
        None
    );
}

#[test]
fn lookups_are_asked_for_only_when_the_search_can_go_on() {
    let args = AssetSearchArgs {
        tag: Some("t".to_string()),
        ..no_args()
    };
    assert_eq!(
        ImmichCtl::required_lookups(&args).ok(),
        Some(Lookups {
            tags: true,
            albums: false
        })
    );
    let args = AssetSearchArgs {
        album: Some("a".to_string()),
        id: Some("a1a7f1a9-7394-49f7-a5a3-e876a7e16ab1".to_string()),
        ..no_args()
    };
    assert_eq!(
        ImmichCtl::required_lookups(&args).ok(),
        Some(Lookups {
            tags: false,
            albums: true
        })
    );
    // a bad identifier shows before any list is fetched
    let args = AssetSearchArgs {
        tag: Some("t".to_string()),
        id: Some("no-uuid".to_string()),
        ..no_args()
    };
    assert!(matches!(
        ImmichCtl::required_lookups(&args),
        Err(Error::InvalidAssetId)
    ));
    let args = AssetSearchArgs {
        remove: true,
        ..args
    };
    assert!(matches!(
        ImmichCtl::required_lookups(&args),
        Err(Error::InvalidAssetId)
    ));
    // a local removal compares identifiers as they are
    let args = AssetSearchArgs {
        remove: true,
        id: Some("no-uuid".to_string()),
        ..no_args()
    };
    assert_eq!(
        ImmichCtl::required_lookups(&args).ok(),
        Some(Lookups {
            tags: false,
            albums: false
        })
    );
    assert!(matches!(
        ImmichCtl::required_lookups(&no_args()),
        Err(Error::NoSearchFlag)
    ));
    let args = AssetSearchArgs {
        timezone: Some(TimezoneOffset::utc()),
        ..no_args()
    };
    assert!(matches!(ImmichCtl::required_lookups(&args), Err(Error::NoSearchFlag)));
}

#[test]
fn local_removal_bounds_are_strict() {
    let a = Utc.with_ymd_and_hms(2024, 1, 1, 12, 0, 0).unwrap();
    let b = Utc.with_ymd_and_hms(2024, 1, 2, 12, 0, 0).unwrap();
    let args = AssetSearchArgs {
        remove: true,
        taken_after: Some(at(a)),
        taken_before: Some(at(b)),
        ..no_args()
    };
    let taken = |t: DateTime<Utc>| create_asset_with_timestamps(t, t);
    assert!(!ImmichCtl::matches_locally(&args, &taken(a)));
    assert!(!ImmichCtl::matches_locally(&args, &taken(b)));
    assert!(ImmichCtl::matches_locally(
        &args,
        &taken(a + chrono::TimeDelta::nanoseconds(1))
    ));
    assert!(ImmichCtl::matches_locally(
        &args,
        &taken(b - chrono::TimeDelta::nanoseconds(1))
    ));
    assert!(!ImmichCtl::matches_locally(
        &args,
        &taken(a - chrono::TimeDelta::seconds(1))
    ));
    assert!(!ImmichCtl::matches_locally(
        &args,
        &taken(b + chrono::TimeDelta::seconds(1))
    ));

    let mut assets = Assets::new(String::new());
    let inside = taken(a + chrono::TimeDelta::hours(1));
    let on_a = taken(a);
    let on_b = taken(b);
    let expected = vec![on_a.id.clone(), on_b.id.clone()];
    assets.add_asset(on_a);
    assets.add_asset(inside);
    assets.add_asset(on_b);
    assert_eq!(ImmichCtl::remove_local(&mut assets, &args), 1);
    assert_eq!(ids(&assets), expected);
}

#[test]
fn local_removal_needs_every_criterion_to_hold() {
    let t = Utc.with_ymd_and_hms(2024, 1, 1, 10, 0, 0).unwrap();
    let mut fav_plus_two = create_asset_with_timestamps(t, t + chrono::TimeDelta::hours(2));
    fav_plus_two.is_favorite = true;
    let plus_two = create_asset_with_timestamps(t, t + chrono::TimeDelta::hours(2));
    let mut fav_exif = create_asset_with_timestamps(t, t + chrono::TimeDelta::hours(2));
    fav_exif.is_favorite = true;
    fav_exif.exif_time_zone = Some("UTC+5".to_string());

    let by_zone = AssetSearchArgs {
        remove: true,
        timezone: TimezoneOffset::east_opt(7200),
        ..no_args()
    };
    assert!(ImmichCtl::matches_locally(&by_zone, &fav_plus_two));
    assert!(ImmichCtl::matches_locally(&by_zone, &plus_two));
    // the camera's offset goes before the device's
    assert!(!ImmichCtl::matches_locally(&by_zone, &fav_exif));

    let both = AssetSearchArgs {
        favorite: Some(true),
        ..by_zone
    };
    assert!(ImmichCtl::matches_locally(&both, &fav_plus_two));
    assert!(!ImmichCtl::matches_locally(&both, &plus_two));
    assert!(!ImmichCtl::matches_locally(&both, &fav_exif));

    let by_id = AssetSearchArgs {
        remove: true,
        id: Some(plus_two.id.clone()),
        favorite: Some(true),
        ..no_args()
    };
    assert!(!ImmichCtl::matches_locally(&by_id, &plus_two));
    assert!(!ImmichCtl::matches_locally(&by_id, &fav_plus_two));
}

#[test]
fn search_add_then_remove_by_id() {
    let id = "a09c9ba5-45e0-40b8-82cb-55c93ff49125";
    let mut found = create_asset_with_timestamps(
        Utc.with_ymd_and_hms(2024, 1, 1, 10, 0, 0).unwrap(),
        Utc.with_ymd_and_hms(2024, 1, 1, 12, 0, 0).unwrap(),
    );
    found.id = id.to_string();

    let mut assets = Assets::load("assets.json", None);
    let args = AssetSearchArgs {
        id: Some(id.to_string()),
        ..no_args()
    };
    assert_eq!(
        ImmichCtl::required_lookups(&args).ok(),
        Some(Lookups {
            tags: false,
            albums: false
        })
    );
    let mut run = ImmichCtl::assets_search_add(&assets, &args, &[], &[]).unwrap();
    let request = run.request().unwrap();
    assert_eq!(request.id, Some(Uuid::parse_str(id).unwrap().as_u128()));
    assert_eq!(request.page.as_deref(), Some("1"));
    assert_eq!(request.with_exif, Some(true));
    // the one page of the answer
    run.page_arrived(&mut assets, vec![found], None);
    assert!(run.request().is_none());
    assert_eq!(assets.len(), 1);
    assert_eq!(run.changed(&assets), 1);

    let args = AssetSearchArgs {
        remove: true,
        ..args
    };
    let outcome = ImmichCtl::assets_search_remove(&mut assets, &args, &[], &[]).unwrap();
    assert!(matches!(outcome, Removal::Local { removed: 1 }));
    assert_eq!(assets.len(), 0);
}

#[test]
fn pages_are_merged_in_order() {
    let t = Utc.with_ymd_and_hms(2024, 1, 1, 10, 0, 0).unwrap();
    let named = |id: &str, name: &str| {
        let mut a = create_asset_with_timestamps(t, t);
        a.id = id.to_string();
        a.original_file_name = name.to_string();
        a
    };
    let mut assets = Assets::new(String::new());
    assets.add_asset(named("kept", "old"));
    assets.add_asset(named("b", "old-b"));

    let query = MetadataSearchDto {
        is_favorite: Some(true),
        ..empty_dto()
    };
    let mut run = SearchRun::begin(false, query, &assets);
    assert_eq!(run.request().unwrap().page.as_deref(), Some("1"));
    run.page_arrived(
        &mut assets,
        vec![named("a", "1"), named("b", "2")],
        Some("2".to_string()),
    );
    let request = run.request().unwrap();
    assert_eq!(request.page.as_deref(), Some("2"));
    assert_eq!(request.is_favorite, Some(true));
    assert_eq!(request.with_exif, Some(true));
    run.page_arrived(
        &mut assets,
        vec![named("c", "3"), named("a", "4")],
        Some("cursor-xyz".to_string()),
    );
    assert_eq!(run.request().unwrap().page.as_deref(), Some("cursor-xyz"));
    run.page_arrived(&mut assets, vec![], None);
    assert!(run.request().is_none());

    let names: Vec<_> = assets
        .iter_assets()
        .iter()
        .map(|a| (a.id.as_str(), a.original_file_name.as_str()))
        .collect();
    assert_eq!(
        names,
        [("kept", "old"), ("b", "2"), ("a", "4"), ("c", "3")]
    );
    assert_eq!(run.changed(&assets), 2);

    // a page after the last is ignored
    run.page_arrived(&mut assets, vec![named("late", "5")], Some("9".to_string()));
    assert!(run.request().is_none());
    assert_eq!(assets.len(), 4);
}

#[test]
fn remote_removal_removes_what_the_pages_name() {
    let t = Utc.with_ymd_and_hms(2024, 1, 1, 10, 0, 0).unwrap();
    let named = |id: &str| {
        let mut a = create_asset_with_timestamps(t, t);
        a.id = id.to_string();
        a
    };
    let mut assets = Assets::new(String::new());
    for id in ["a", "b", "c", "d"] {
        assets.add_asset(named(id));
    }
    let tags = vec![tag("a1a7f1a9-7394-49f7-a5a3-e876a7e16ab1", "tag1")];
    let args = AssetSearchArgs {
        remove: true,
        tag: Some("tag1".to_string()),
        ..no_args()
    };
    let outcome = ImmichCtl::assets_search_remove(&mut assets, &args, &tags, &[]).unwrap();
    assert_eq!(assets.len(), 4);
    let mut run = match outcome {
        Removal::Remote(run) => run,
        Removal::Local { .. } => panic!("the selection cannot know the tags"),
    };
    let request = run.request().unwrap();
    assert_eq!(
        request.tag_ids,
        Some(vec![0xa1a7f1a9_7394_49f7_a5a3_e876a7e16ab1])
    );
    assert_eq!(request.page.as_deref(), Some("1"));
    assert_eq!(request.with_exif, None);
    run.page_arrived(
        &mut assets,
        vec![named("b"), named("x")],
        Some("2".to_string()),
    );
    run.page_arrived(&mut assets, vec![named("d"), named("b")], None);
    assert!(run.request().is_none());
    assert_eq!(ids(&assets), ["a", "c"]);
    assert_eq!(run.changed(&assets), 2);

    // counts never go below none
    let mut grown = Assets::new(String::new());
    for id in ["a", "b", "c", "d", "e"] {
        grown.add_asset(named(id));
    }
    assert_eq!(run.changed(&grown), 0);
    let adding = SearchRun::begin(false, empty_dto(), &grown);
    assert_eq!(adding.changed(&assets), 0);
}

#[test]
fn assemble_search_dto_from_what_was_found() {
    let args = AssetSearchArgs {
        id: Some("anything".to_string()),
        tag: Some("t".to_string()),
        album: Some("a".to_string()),
        favorite: Some(true),
        ..no_args()
    };
    let dto = ImmichCtl::assemble_search_dto(&args, Some(Some(7)), Some(Ok(8)), Some(Ok(9))).unwrap();
    assert!(same(
        &dto,
        &MetadataSearchDto {
            id: Some(7),
            tag_ids: Some(vec![8]),
            album_ids: vec![9],
            is_favorite: Some(true),
            ..empty_dto()
        }
    ));
    // the first fault decides
    let e = ImmichCtl::assemble_search_dto(
        &args,
        Some(None),
        Some(Err(Error::TagNotFound("t".to_string()))),
        Some(Err(Error::AlbumNotFound("a".to_string()))),
    )
    .err()
    .unwrap();
    assert!(matches!(e, Error::InvalidAssetId));
    let e = ImmichCtl::assemble_search_dto(
        &args,
        Some(Some(7)),
        Some(Err(Error::TagNotFound("t".to_string()))),
        Some(Err(Error::AlbumNotFound("a".to_string()))),
    )
    .err()
    .unwrap();
    assert_eq!(e.to_string(), "Tag not found or not unique: 't'");
    let e = ImmichCtl::assemble_search_dto(
        &args,
        Some(Some(7)),
        Some(Ok(8)),
        Some(Err(Error::AlbumNotFound("a".to_string()))),
    )
    .err()
    .unwrap();
    assert_eq!(e.to_string(), "Album not found: 'a'");
    // nothing found and nothing else asked for
    let e = ImmichCtl::assemble_search_dto(&no_args(), None, None, None)
        .err()
        .unwrap();
    assert!(matches!(e, Error::NoSearchFlag));
    let favorite = AssetSearchArgs {
        favorite: Some(false),
        ..no_args()
    };
    let dto = ImmichCtl::assemble_search_dto(&favorite, None, None, None).unwrap();
    assert!(same(
        &dto,
        &MetadataSearchDto {
            is_favorite: Some(false),
            ..empty_dto()
        }
    ));
}

#[test]
fn lookups_needed_for_what_was_found() {
    let args = AssetSearchArgs {
        id: Some("x".to_string()),
        album: Some("a".to_string()),
        ..no_args()
    };
    assert_eq!(
        ImmichCtl::lookups_needed(&args, Some(Some(1))).ok(),
        Some(Lookups {
            tags: false,
            albums: true
        })
    );
    assert!(matches!(
        ImmichCtl::lookups_needed(&args, Some(None)),
        Err(Error::InvalidAssetId)
    ));
    let local = AssetSearchArgs {
        remove: true,
        id: Some("x".to_string()),
        ..no_args()
    };
    assert_eq!(
        ImmichCtl::lookups_needed(&local, Some(None)).ok(),
        Some(Lookups {
            tags: false,
            albums: false
        })
    );
}

fn search_by(id: &Option<String>, tag: &Option<String>, album: &Option<String>) -> AssetSearchArgs {
    AssetSearchArgs {
        id: id.clone(),
        tag: tag.clone(),
        album: album.clone(),
        ..no_args()
    }
}

#[test]
fn selection_cmd_test_build_search_dto_no_flags() {
    let result = ImmichCtl::build_search_dto(&search_by(&None, &None, &None), &[], &[]);

    assert!(result.is_err());
    assert_eq!(
        result.err().unwrap().to_string(),
        "Please provide at least one search flag."
    );
}

#[test]
fn selection_cmd_test_build_search_dto_with_id() {
    let mut result = ImmichCtl::build_search_dto(
        &search_by(
            &Some("a1a7f1a9-7394-49f7-a5a3-e876a7e16ab1".to_string()),
            &None,
            &None,
        ),
        &[],
        &[],
    );
    assert!(result.is_ok());
    assert!(same(
        &result.unwrap(),
        &MetadataSearchDto {
            id: Some(
                Uuid::parse_str("a1a7f1a9-7394-49f7-a5a3-e876a7e16ab1")
                    .unwrap()
                    .as_u128()
            ),
            ..empty_dto()
        }
    ));

    result = ImmichCtl::build_search_dto(
        &search_by(&Some("no-uuid".to_string()), &None, &None),
        &[],
        &[],
    );
    assert!(result.is_err());
    assert_eq!(
        result.err().unwrap().to_string(),
        "Invalid asset id, expected uuid"
    );
}

#[test]
fn selection_cmd_test_build_search_dto_with_tag() {
    let tags = vec![tag("a1a7f1a9-7394-49f7-a5a3-e876a7e16ab1", "tag1")];

    let mut result = ImmichCtl::build_search_dto(
        &search_by(&None, &Some("tag1".to_string()), &None),
        &tags,
        &[],
    );
    assert!(result.is_ok());
    assert!(same(
        &result.unwrap(),
        &MetadataSearchDto {
            tag_ids: Some(vec!(Uuid::parse_str("a1a7f1a9-7394-49f7-a5a3-e876a7e16ab1")
                .unwrap()
                .as_u128())),
            ..empty_dto()
        }
    ));

    result = ImmichCtl::build_search_dto(
        &search_by(&None, &Some("no-tag".to_string()), &None),
        &tags,
        &[],
    );
    assert!(result.is_err());
    assert_eq!(
        result.err().unwrap().to_string(),
        "Tag not found or not unique: 'no-tag'"
    );
}

#[test]
fn selection_cmd_test_build_search_dto_with_album() {
    let albums = vec![album("a1a7f1a9-7394-49f7-a5a3-e876a7e16ab1", "album1")];

    let mut result = ImmichCtl::build_search_dto(
        &search_by(&None, &None, &Some("album1".to_string())),
        &[],
        &albums,
    );
    assert!(result.is_ok());
    assert!(same(
        &result.unwrap(),
        &MetadataSearchDto {
            album_ids: vec!(Uuid::parse_str("a1a7f1a9-7394-49f7-a5a3-e876a7e16ab1")
                .unwrap()
                .as_u128()),
            ..empty_dto()
        }
    ));

    result = ImmichCtl::build_search_dto(
        &search_by(&None, &None, &Some("no-album".to_string())),
        &[],
        &albums,
    );
    assert!(result.is_err());
    assert_eq!(
        result.err().unwrap().to_string(),
        "Album not found: 'no-album'"
    );
}
