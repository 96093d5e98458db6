//! The selection as lines of comma-separated columns.

use vstd::prelude::*;
use vstd::string::StringExecFns;
use crate::asset::{column_text, AssetColumns, AssetRecord, AssetRecordView};
use crate::assets::Assets;

use crate::immichctl::ImmichCtl;
verus! {

/// The line that shows `asset` in `columns`: what each column shows, with
/// commas between.
pub open spec fn csv_row(asset: AssetRecordView, columns: Seq<AssetColumns>) -> Seq<char>
    decreases columns.len(),
{
    if columns.len() == 0 {
        Seq::empty()
    } else if columns.len() == 1 {
        column_text(asset, columns[0])
    } else {
        csv_row(asset, columns.drop_last()) + seq![','] + column_text(asset, columns.last())
    }
}

/// The lines that show `assets` in `columns`, each closed by a line feed.
pub open spec fn csv_text(assets: Seq<AssetRecord>, columns: Seq<AssetColumns>) -> Seq<char>
    decreases assets.len(),
{
    if assets.len() == 0 {
        Seq::empty()
    } else {
        csv_text(assets.drop_last(), columns) + csv_row(assets.last()@, columns) + seq!['\n']
    }
}

impl ImmichCtl {
    /// The line that shows `asset` in `columns`.
    pub fn asset_row(asset: &AssetRecord, columns: &[AssetColumns]) -> (line: String)
        ensures
            line@ == csv_row(asset@, columns@),
    {
        let mut line = String::new();
        let n = columns.len();
        let mut i: usize = 0;
        while i < n
            invariant
                i <= n == columns@.len(),
                line@ == csv_row(asset@, columns@.take(i as int)),
            decreases n - i,
        {
            proof {
                assert(columns@.take(i + 1).drop_last() == columns@.take(i as int));
            }
            let ghost so_far = line@;
            if i > 0 {
                line.append(",");
            }
            let cell = Self::asset_column(asset, columns[i]);
            line.append(cell.as_str());
            proof {
                let now = columns@.take(i + 1);
                assert(now.last() == columns@[i as int]);
                if i == 0 {
                    assert(so_far == Seq::<char>::empty());
                    assert(line@ == column_text(asset@, columns@[0]));
                    assert(now.len() == 1 && now[0] == columns@[0]);
                } else {
                    reveal_strlit(",");
                    assert(","@ == seq![',']);
                    assert(line@ == so_far + seq![','] + column_text(asset@, columns@[i as int]));
                    assert(now.len() > 1);
                }
            }
            i += 1;
        }
        assert(columns@.take(n as int) == columns@);
        line
    }

    /// The selection in `columns`: one line for each record, in the order of the
    /// keys.
    pub fn assets_list_csv(assets: &Assets, columns: &[AssetColumns]) -> (text: String)
        ensures
            text@ == csv_text(assets.records(), columns@),
    {
        let records = assets.iter_assets();
        let mut text = String::new();
        let n = records.len();
        let mut i: usize = 0;
        while i < n
            invariant
                i <= n == records@.len(),
                text@ == csv_text(records@.take(i as int), columns@),
            decreases n - i,
        {
            proof {
                assert(records@.take(i + 1).drop_last() == records@.take(i as int));
            }
            let ghost so_far = text@;
            let line = Self::asset_row(&records[i], columns);
            text.append(line.as_str());
            text.append("\n");
            proof {
                assert(records@.take(i + 1).last() == records@[i as int]);
                reveal_strlit("\n");
                assert("\n"@ == seq!['\n']);
                assert(text@ == so_far + csv_row(records@[i as int]@, columns@) + seq!['\n']);
            }
            i += 1;
        }
        assert(records@.take(n as int) == records@);
        text
    }
}

} // verus!
