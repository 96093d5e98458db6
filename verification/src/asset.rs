//! Asset records, the capture time they carry, and how it is adjusted.

use vstd::prelude::*;
use crate::error::{Error, ErrorView};
use crate::ident::{parse_uuid, uuid_value};
use crate::immichctl::ImmichCtl;
use crate::time::{
    instant_in_range, rfc3339_at, whole_seconds, OffsetDateTime, OffsetDateTimeView, Timestamp,
    NANOS_PER_SEC,
};
use crate::timedelta::TimeDeltaValue;
use crate::timezone::{offset_text, parse_offset, valid_offset, TimezoneOffset};

verus! {

/// What is cached of one asset of the remote service.
#[derive(Clone, Debug)]
pub struct AssetRecord {
    /// The identifier that the service gave the asset.
    pub id: String,
    /// When the file was created.
    pub file_created_at: Timestamp,
    /// The wall clock of the capturing device, stored as if it were UTC: its
    /// distance from `file_created_at` is the device's offset.
    pub local_date_time: Timestamp,
    /// The offset that the camera recorded, as free text.
    pub exif_time_zone: Option<String>,
    /// The capture time that the camera recorded.
    pub exif_date_time_original: Option<Timestamp>,
    /// Whether the asset is marked as a favorite.
    pub is_favorite: bool,
    /// The name of the file as it was uploaded.
    pub original_file_name: String,
    /// Everything else the service reports, carried along unread.
    pub passthrough: String,
}

/// An asset record as plain values.
pub ghost struct AssetRecordView {
    pub id: Seq<char>,
    pub file_created_at: int,
    pub local_date_time: int,
    pub exif_time_zone: Option<Seq<char>>,
    pub exif_date_time_original: Option<int>,
    pub is_favorite: bool,
    pub original_file_name: Seq<char>,
    pub passthrough: Seq<char>,
}

/// What is to be done with an asset whose capture time is adjusted.
#[derive(Debug)]
pub enum DateTimeUpdate {
    /// A dry run: the capture time before and after, to be shown.
    Report { old: OffsetDateTime, new: OffsetDateTime },
    /// The service is to set the asset's capture time to this text. What it
    /// answers takes the record's place in the selection.
    Send { id: u128, date_time_original: String },
}

/// What is to be done with an asset, as plain values.
pub ghost enum DateTimeUpdateView {
    Report { old: OffsetDateTimeView, new: OffsetDateTimeView },
    Send { id: u128, date_time_original: Seq<char> },
}

impl View for DateTimeUpdate {
    type V = DateTimeUpdateView;

    open spec fn view(&self) -> DateTimeUpdateView {
        match self {
            DateTimeUpdate::Report { old, new } => DateTimeUpdateView::Report {
                old: old@,
                new: new@,
            },
            DateTimeUpdate::Send { id, date_time_original } => DateTimeUpdateView::Send {
                id: *id,
                date_time_original: date_time_original@,
            },
        }
    }
}

/// The columns in which a listing can show an asset.
#[derive(Clone, Copy, Debug, PartialEq, Eq, Structural)]
pub enum AssetColumns {
    /// The asset's identifier.
    Id,
    /// The name of the file as it was uploaded.
    OriginalFileName,
    /// When the file was created, in UTC.
    FileCreatedAt,
    /// The offset of the capturing device.
    Timezone,
    /// The capture time at the device's offset.
    DateTimeOriginal,
    /// The offset that the camera recorded, as it was written.
    ExifTimezone,
    /// The capture time that the camera recorded, at the recorded offset.
    ExifDateTimeOriginal,
}

impl View for AssetRecord {
    type V = AssetRecordView;

    open spec fn view(&self) -> AssetRecordView {
        AssetRecordView {
            id: self.id@,
            file_created_at: self.file_created_at@,
            local_date_time: self.local_date_time@,
            exif_time_zone: match self.exif_time_zone {
                Some(tz) => Some(tz@),
                None => None,
            },
            exif_date_time_original: match self.exif_date_time_original {
                Some(t) => Some(t@),
                None => None,
            },
            is_favorite: self.is_favorite,
            original_file_name: self.original_file_name@,
            passthrough: self.passthrough@,
        }
    }
}

/// The offset of the device that captured the asset: how far its wall clock
/// was ahead of the file's creation time, in whole seconds. A distance of a
/// day or more is no offset but a wrong clock, and counts as UTC.
pub open spec fn device_offset(asset: AssetRecordView) -> int {
    let ahead = whole_seconds(asset.local_date_time - asset.file_created_at);
    if valid_offset(ahead) {
        ahead
    } else {
        0
    }
}

/// The offset that the camera recorded, where it recorded one that reads as
/// an offset.
pub open spec fn exif_offset(asset: AssetRecordView) -> Option<int> {
    match asset.exif_time_zone {
        Some(text) => match parse_offset(text) {
            Ok(secs) => Some(secs),
            Err(_) => None,
        },
        None => None,
    }
}

/// The capture time from the camera: its recorded time at its recorded offset,
/// where it recorded both.
pub open spec fn exif_taken_at(asset: AssetRecordView) -> Option<OffsetDateTimeView> {
    match (asset.exif_date_time_original, exif_offset(asset)) {
        (Some(instant), Some(offset)) => Some(OffsetDateTimeView { instant, offset }),
        _ => None,
    }
}

/// The capture time from the file: its creation time at the device's offset.
pub open spec fn device_taken_at(asset: AssetRecordView) -> OffsetDateTimeView {
    OffsetDateTimeView { instant: asset.file_created_at, offset: device_offset(asset) }
}

/// The capture time of the asset: the camera's where it has one, else the
/// file's.
pub open spec fn taken_at(asset: AssetRecordView) -> OffsetDateTimeView {
    match exif_taken_at(asset) {
        Some(t) => t,
        None => device_taken_at(asset),
    }
}

/// The offset the asset is filed under: the camera's where it recorded one,
/// else the device's.
pub open spec fn filed_offset(asset: AssetRecordView) -> int {
    match exif_offset(asset) {
        Some(offset) => offset,
        None => device_offset(asset),
    }
}

/// The capture time after an adjustment: the span `delta`, in seconds, is
/// added to the instant first; the result is then shown at `target`, or at
/// the offset it had where no target is given.
pub open spec fn adjusted(asset: AssetRecordView, delta: int, target: Option<int>)
    -> OffsetDateTimeView {
    OffsetDateTimeView {
        instant: taken_at(asset).instant + delta * NANOS_PER_SEC,
        offset: match target {
            Some(offset) => offset,
            None => taken_at(asset).offset,
        },
    }
}

/// What the column `col` shows of the asset.
pub open spec fn column_text(asset: AssetRecordView, col: AssetColumns) -> Seq<char> {
    match col {
        AssetColumns::Id => asset.id,
        AssetColumns::OriginalFileName => asset.original_file_name,
        AssetColumns::FileCreatedAt => rfc3339_at(asset.file_created_at, 0),
        AssetColumns::Timezone => offset_text(device_offset(asset)),
        AssetColumns::DateTimeOriginal => rfc3339_at(
            device_taken_at(asset).instant,
            device_taken_at(asset).offset,
        ),
        AssetColumns::ExifTimezone => match asset.exif_time_zone {
            Some(text) => text,
            None => Seq::empty(),
        },
        AssetColumns::ExifDateTimeOriginal => match exif_taken_at(asset) {
            Some(t) => rfc3339_at(t.instant, t.offset),
            None => Seq::empty(),
        },
    }
}

/// The identifier of the asset as a number, or the record's fault.
pub open spec fn uuid_of(asset: AssetRecordView) -> Result<u128, ErrorView> {
    match uuid_value(asset.id) {
        Some(id) => Ok(id),
        None => Err(ErrorView::InvalidStoredAssetId(asset.id)),
    }
}

/// What is to be done with the asset for an adjustment by `delta` seconds
/// and to the offset `target`: in a dry run the times are reported, whatever
/// the identifier; else the new time goes to the service, as text, unless the
/// identifier is no UUID.
pub open spec fn date_time_update(
    asset: AssetRecordView,
    delta: int,
    target: Option<int>,
    dry_run: bool,
) -> Result<DateTimeUpdateView, ErrorView> {
    let new = adjusted(asset, delta, target);
    if dry_run {
        Ok(DateTimeUpdateView::Report { old: taken_at(asset), new })
    } else {
        match uuid_of(asset) {
            Ok(id) => Ok(
                DateTimeUpdateView::Send {
                    id,
                    date_time_original: rfc3339_at(new.instant, new.offset),
                },
            ),
            Err(e) => Err(e),
        }
    }
}

impl ImmichCtl {
    /// The offset of the device that captured the asset.
    pub fn asset_timezone_offset(asset: &AssetRecord) -> (offset: TimezoneOffset)
        ensures
            offset@ == device_offset(asset@),
            offset.wf(),
    {
        let ahead = asset.local_date_time.whole_seconds_since(&asset.file_created_at);
        if -86_400 < ahead && ahead < 86_400 {
            match TimezoneOffset::east_opt(ahead as i32) {
                Some(offset) => offset,
                None => TimezoneOffset::utc(),
            }
        } else {
            TimezoneOffset::utc()
        }
    }

    /// The offset that the camera recorded, where it reads as one.
    pub fn exif_timezone_offset(asset: &AssetRecord) -> (offset: Option<TimezoneOffset>)
        ensures
            match offset {
                Some(o) => exif_offset(asset@) == Some(o@) && o.wf(),
                None => exif_offset(asset@) is None,
            },
    {
        match &asset.exif_time_zone {
            Some(text) => match Self::parse_exif_timezone(text.as_str()) {
                Ok(offset) => Some(offset),
                Err(_) => None,
            },
            None => None,
        }
    }

    /// The capture time from the camera, where it recorded a time and an offset.
    pub fn get_exif_date_time_original(asset: &AssetRecord) -> (taken: Option<OffsetDateTime>)
        ensures
            match taken {
                Some(t) => exif_taken_at(asset@) == Some(t@),
                None => exif_taken_at(asset@) is None,
            },
    {
        match asset.exif_date_time_original {
            Some(utc) => match Self::exif_timezone_offset(asset) {
                Some(offset) => Some(OffsetDateTime { utc, offset }),
                None => None,
            },
            None => None,
        }
    }

    /// The capture time from the file: its creation time at the device's offset.
    pub fn get_asset_date_time_original(asset: &AssetRecord) -> (taken: OffsetDateTime)
        ensures
            taken@ == device_taken_at(asset@),
    {
        OffsetDateTime { utc: asset.file_created_at, offset: Self::asset_timezone_offset(asset) }
    }

    /// The capture time of the asset: the camera's where it has one, else the
    /// file's.
    pub fn get_date_time_original(asset: &AssetRecord) -> (taken: OffsetDateTime)
        ensures
            taken@ == taken_at(asset@),
    {
        match Self::get_exif_date_time_original(asset) {
            Some(taken) => taken,
            None => Self::get_asset_date_time_original(asset),
        }
    }

    /// The offset the asset is filed under: the camera's where it recorded one,
    /// else the device's.
    pub fn asset_filed_offset(asset: &AssetRecord) -> (offset: TimezoneOffset)
        ensures
            offset@ == filed_offset(asset@),
    {
        match Self::exif_timezone_offset(asset) {
            Some(offset) => offset,
            None => Self::asset_timezone_offset(asset),
        }
    }

    /// The capture time of the asset before and after an adjustment by `offset`
    /// and, where one is given, a move to `new_timezone`.
    pub fn adjust_date_time_original(
        asset: &AssetRecord,
        offset: &TimeDeltaValue,
        new_timezone: &Option<TimezoneOffset>,
    ) -> (r: (OffsetDateTime, OffsetDateTime))
        requires
            instant_in_range(taken_at(asset@).instant + offset@ * NANOS_PER_SEC),
        ensures
            r.0@ == taken_at(asset@),
            r.1@ == adjusted(
                asset@,
                offset@,
                match new_timezone {
                    Some(tz) => Some(tz@),
                    None => None,
                },
            ),
    {
        let old = Self::get_date_time_original(asset);
        let zone = match new_timezone {
            Some(tz) => *tz,
            None => old.offset,
        };
        match old.utc.checked_add_signed(offset) {
            Some(utc) => (old, OffsetDateTime { utc, offset: zone }),
            None => (old, old),
        }
    }

    /// What the column `col` shows of the asset.
    pub fn asset_column(asset: &AssetRecord, col: AssetColumns) -> (text: String)
        ensures
            text@ == column_text(asset@, col),
    {
        match col {
            AssetColumns::Id => asset.id.clone(),
            AssetColumns::OriginalFileName => asset.original_file_name.clone(),
            AssetColumns::FileCreatedAt => {
                let shown = OffsetDateTime {
                    utc: asset.file_created_at,
                    offset: TimezoneOffset::utc(),
                };
                shown.to_rfc3339()
            },
            AssetColumns::Timezone => Self::asset_timezone_offset(asset).to_string(),
            AssetColumns::DateTimeOriginal => {
                Self::get_asset_date_time_original(asset).to_rfc3339()
            },
            AssetColumns::ExifTimezone => match &asset.exif_time_zone {
                Some(text) => text.clone(),
                None => String::new(),
            },
            AssetColumns::ExifDateTimeOriginal => match Self::get_exif_date_time_original(asset) {
                Some(taken) => taken.to_rfc3339(),
                None => String::new(),
            },
        }
    }

    /// The identifier of the asset as a number, as the service wants it.
    pub fn asset_uuid(asset: &AssetRecord) -> (r: Result<u128, Error>)
        ensures
            match r {
                Ok(id) => uuid_of(asset@) == Ok::<u128, ErrorView>(id),
                Err(e) => uuid_of(asset@) == Err::<u128, ErrorView>(e@),
            },
    {
        match parse_uuid(asset.id.as_str()) {
            Some(id) => Ok(id),
            None => Err(Error::InvalidStoredAssetId(asset.id.clone())),
        }
    }

    /// Whether the capture time of the asset can be moved by `offset`: whether
    /// the moved instant is still one that can be written.
    pub fn can_adjust(asset: &AssetRecord, offset: &TimeDeltaValue) -> (b: bool)
        ensures
            b == instant_in_range(taken_at(asset@).instant + offset@ * NANOS_PER_SEC),
    {
        Self::get_date_time_original(asset).utc.checked_add_signed(offset).is_some()
    }

    /// One step of an adjustment of the whole selection: what is to be done with
    /// `asset`.
    pub fn assets_datetime_adjust(
        asset: &AssetRecord,
        offset: &TimeDeltaValue,
        timezone: &Option<TimezoneOffset>,
        dry_run: bool,
    ) -> (r: Result<DateTimeUpdate, Error>)
        requires
            instant_in_range(taken_at(asset@).instant + offset@ * NANOS_PER_SEC),
        ensures
            match r {
                Ok(update) => date_time_update(
                    asset@,
                    offset@,
                    match timezone {
                        Some(tz) => Some(tz@),
                        None => None,
                    },
                    dry_run,
                ) == Ok::<DateTimeUpdateView, ErrorView>(update@),
                Err(e) => date_time_update(
                    asset@,
                    offset@,
                    match timezone {
                        Some(tz) => Some(tz@),
                        None => None,
                    },
                    dry_run,
                ) == Err::<DateTimeUpdateView, ErrorView>(e@),
            },
    {
        let (old, new) = Self::adjust_date_time_original(asset, offset, timezone);
        if dry_run {
            return Ok(DateTimeUpdate::Report { old, new });
        }
        match Self::asset_uuid(asset) {
            Ok(id) => Ok(DateTimeUpdate::Send { id, date_time_original: new.to_rfc3339() }),
            Err(e) => Err(e),
        }
    }
}

/// Where the device's wall clock is a whole number of seconds ahead of the
/// file's creation time, that number is the device's offset if it is less
/// than a day in either direction, and the offset is zero otherwise: two hours
/// ahead give two hours, twenty-six hours ahead give UTC.
pub proof fn lemma_device_offset(asset: AssetRecordView, ahead: int)
    requires
        asset.local_date_time == asset.file_created_at + ahead * NANOS_PER_SEC,
    ensures
        device_offset(asset) == if valid_offset(ahead) {
            ahead
        } else {
            0
        },
        ahead == 2 * 3_600 ==> device_offset(asset) == 2 * 3_600,
        ahead == 26 * 3_600 ==> device_offset(asset) == 0,
{
    assert(whole_seconds(ahead * NANOS_PER_SEC) == ahead);
}

/// An adjustment adds the span to the instant whatever offset is asked for,
/// and asks for an offset without moving the instant: the span is never
/// counted twice.
pub proof fn lemma_adjust_adds_then_reprojects(
    asset: AssetRecordView,
    delta: int,
    target: Option<int>,
)
    ensures
        adjusted(asset, delta, target).instant == adjusted(asset, delta, None).instant,
        adjusted(asset, delta, None).offset == taken_at(asset).offset,
        adjusted(asset, 0, target).instant == taken_at(asset).instant,
        target matches Some(offset) ==> adjusted(asset, delta, target).offset == offset,
{
}

} // verus!
