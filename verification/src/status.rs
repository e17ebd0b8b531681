//! Status-bar helper logic: pure selection of icons and text.
//!
//! The surrounding utilities poll a mixer, a battery driver or a compositor
//! and print a small piece of text for a status bar.  The querying is plain
//! I/O and lives outside the library; the decisions — which icon stands for
//! a volume, a charge level or a workspace, and in what order workspace
//! icons appear — are pure functions of the queried values and are verified
//! here.

use vstd::prelude::*;
use vstd::string::StringExecFns;
use crate::note::{opt_view, push_dec, spec_dec};

verus! {

broadcast use vstd::seq_lib::group_to_multiset_ensures;

/// The icon shown for a mixer state: one glyph for mute, and one each for
/// silence, low volume and high volume.
pub open spec fn spec_volume_symbol(mute: bool, volume: u8) -> Seq<char> {
    if mute {
        "\u{eb24}"@
    } else if volume == 0 {
        "\u{f026}"@
    } else if volume <= 49 {
        "\u{f027}"@
    } else {
        "\u{f028}"@
    }
}

/// Picks the mixer icon for the given mute flag and volume percentage.
pub fn volume_symbol(mute: bool, volume: u8) -> (r: String)
    ensures
        r@ == spec_volume_symbol(mute, volume),
{
    if mute {
        String::from_str("\u{eb24}")
    } else if volume == 0 {
        String::from_str("\u{f026}")
    } else if volume <= 49 {
        String::from_str("\u{f027}")
    } else {
        String::from_str("\u{f028}")
    }
}

/// The icon shown for a battery state: one glyph per ten percent of charge,
/// a separate set while charging, a full glyph at one hundred percent, and
/// an alert glyph for a reading above one hundred.
pub open spec fn spec_battery_symbol(charge: u8, charging: bool) -> Seq<char> {
    if charging && charge < 10 {
        "\u{f089c}"@
    } else if charging && charge < 20 {
        "\u{f0086}"@
    } else if charging && charge < 30 {
        "\u{f0087}"@
    } else if charging && charge < 40 {
        "\u{f0088}"@
    } else if charging && charge < 50 {
        "\u{f089d}"@
    } else if charging && charge < 60 {
        "\u{f0089}"@
    } else if charging && charge < 70 {
        "\u{f089e}"@
    } else if charging && charge < 80 {
        "\u{f008a}"@
    } else if charging && charge < 90 {
        "\u{f008b}"@
    } else if charging && charge < 100 {
        "\u{f0085}"@
    } else if charge < 10 {
        "\u{f007a}"@
    } else if charge < 20 {
        "\u{f007b}"@
    } else if charge < 30 {
        "\u{f007c}"@
    } else if charge < 40 {
        "\u{f007d}"@
    } else if charge < 50 {
        "\u{f007e}"@
    } else if charge < 60 {
        "\u{f007f}"@
    } else if charge < 70 {
        "\u{f0080}"@
    } else if charge < 80 {
        "\u{f0081}"@
    } else if charge < 90 {
        "\u{f0082}"@
    } else if charge <= 100 {
        "\u{f0079}"@
    } else {
        "\u{f0083}"@
    }
}

/// Picks the battery icon for the given charge percentage and charging
/// flag.
pub fn battery_symbol(charge: u8, charging: bool) -> (r: String)
    ensures
        r@ == spec_battery_symbol(charge, charging),
{
    if charging && charge < 10 {
        String::from_str("\u{f089c}")
    } else if charging && charge < 20 {
        String::from_str("\u{f0086}")
    } else if charging && charge < 30 {
        String::from_str("\u{f0087}")
    } else if charging && charge < 40 {
        String::from_str("\u{f0088}")
    } else if charging && charge < 50 {
        String::from_str("\u{f089d}")
    } else if charging && charge < 60 {
        String::from_str("\u{f0089}")
    } else if charging && charge < 70 {
        String::from_str("\u{f089e}")
    } else if charging && charge < 80 {
        String::from_str("\u{f008a}")
    } else if charging && charge < 90 {
        String::from_str("\u{f008b}")
    } else if charging && charge < 100 {
        String::from_str("\u{f0085}")
    } else if charge < 10 {
        String::from_str("\u{f007a}")
    } else if charge < 20 {
        String::from_str("\u{f007b}")
    } else if charge < 30 {
        String::from_str("\u{f007c}")
    } else if charge < 40 {
        String::from_str("\u{f007d}")
    } else if charge < 50 {
        String::from_str("\u{f007e}")
    } else if charge < 60 {
        String::from_str("\u{f007f}")
    } else if charge < 70 {
        String::from_str("\u{f0080}")
    } else if charge < 80 {
        String::from_str("\u{f0081}")
    } else if charge < 90 {
        String::from_str("\u{f0082}")
    } else if charge <= 100 {
        String::from_str("\u{f0079}")
    } else {
        String::from_str("\u{f0083}")
    }
}

/// The decimal text for a volume percentage.
pub fn volume_text(volume: u8) -> (r: String)
    ensures
        r@ == spec_dec(volume as nat),
{
    let mut out: Vec<char> = Vec::new();
    push_dec(&mut out, volume as u32);
    crate::text::chars_to_string(&out)
}

/// The decimal text for a charge percentage.
pub fn charge_text(charge: u8) -> (r: String)
    ensures
        r@ == spec_dec(charge as nat),
{
    let mut out: Vec<char> = Vec::new();
    push_dec(&mut out, charge as u32);
    crate::text::chars_to_string(&out)
}

/// The workspace icon for an id between one and ten, active or not; other
/// ids get none.
pub open spec fn spec_workspace_glyph(id: i64, active: bool) -> Option<Seq<char>> {
    if active {
        if id == 1 {
            Some("\u{f03a4}"@)
        } else if id == 2 {
            Some("\u{f03a7}"@)
        } else if id == 3 {
            Some("\u{f03aa}"@)
        } else if id == 4 {
            Some("\u{f03ad}"@)
        } else if id == 5 {
            Some("\u{f03b1}"@)
        } else if id == 6 {
            Some("\u{f03b3}"@)
        } else if id == 7 {
            Some("\u{f03b6}"@)
        } else if id == 8 {
            Some("\u{f03b9}"@)
        } else if id == 9 {
            Some("\u{f03bc}"@)
        } else if id == 10 {
            Some("\u{f03a1}"@)
        } else {
            None
        }
    } else {
        if id == 1 {
            Some("\u{f03a6}"@)
        } else if id == 2 {
            Some("\u{f03a9}"@)
        } else if id == 3 {
            Some("\u{f03ac}"@)
        } else if id == 4 {
            Some("\u{f03ae}"@)
        } else if id == 5 {
            Some("\u{f03b0}"@)
        } else if id == 6 {
            Some("\u{f03b5}"@)
        } else if id == 7 {
            Some("\u{f03b8}"@)
        } else if id == 8 {
            Some("\u{f03bb}"@)
        } else if id == 9 {
            Some("\u{f03be}"@)
        } else if id == 10 {
            Some("\u{f03a3}"@)
        } else {
            None
        }
    }
}

/// Picks the workspace icon for one id.
pub fn workspace_glyph(id: i64, active: bool) -> (r: Option<String>)
    ensures
        opt_view(r) == spec_workspace_glyph(id, active),
{
    if active {
        if id == 1 {
            Some(String::from_str("\u{f03a4}"))
        } else if id == 2 {
            Some(String::from_str("\u{f03a7}"))
        } else if id == 3 {
            Some(String::from_str("\u{f03aa}"))
        } else if id == 4 {
            Some(String::from_str("\u{f03ad}"))
        } else if id == 5 {
            Some(String::from_str("\u{f03b1}"))
        } else if id == 6 {
            Some(String::from_str("\u{f03b3}"))
        } else if id == 7 {
            Some(String::from_str("\u{f03b6}"))
        } else if id == 8 {
            Some(String::from_str("\u{f03b9}"))
        } else if id == 9 {
            Some(String::from_str("\u{f03bc}"))
        } else if id == 10 {
            Some(String::from_str("\u{f03a1}"))
        } else {
            None
        }
    } else {
        if id == 1 {
            Some(String::from_str("\u{f03a6}"))
        } else if id == 2 {
            Some(String::from_str("\u{f03a9}"))
        } else if id == 3 {
            Some(String::from_str("\u{f03ac}"))
        } else if id == 4 {
            Some(String::from_str("\u{f03ae}"))
        } else if id == 5 {
            Some(String::from_str("\u{f03b0}"))
        } else if id == 6 {
            Some(String::from_str("\u{f03b5}"))
        } else if id == 7 {
            Some(String::from_str("\u{f03b8}"))
        } else if id == 8 {
            Some(String::from_str("\u{f03bb}"))
        } else if id == 9 {
            Some(String::from_str("\u{f03be}"))
        } else if id == 10 {
            Some(String::from_str("\u{f03a3}"))
        } else {
            None
        }
    }
}

/// The ids of the workspaces that sit on the given monitor, in input order.
pub open spec fn spec_ids_on_monitor(ws: Seq<(i64, Option<i64>)>, monitor: i64) -> Seq<i64>
    decreases ws.len(),
{
    if ws.len() == 0 {
        Seq::empty()
    } else {
        spec_ids_on_monitor(ws.drop_last(), monitor) + (if ws.last().1 == Some(monitor) {
            seq![ws.last().0]
        } else {
            Seq::empty()
        })
    }
}

/// Keeps the ids of the workspaces on the given monitor.
pub fn ids_on_monitor(ws: &Vec<(i64, Option<i64>)>, monitor: i64) -> (r: Vec<i64>)
    ensures
        r@ == spec_ids_on_monitor(ws@, monitor),
{
    let n = ws.len();
    let mut out: Vec<i64> = Vec::new();
    let mut i: usize = 0;
    while i < n
        invariant
            i <= n,
            n == ws@.len(),
            out@ == spec_ids_on_monitor(ws@.take(i as int), monitor),
        decreases n - i,
    {
        let (id, mon) = ws[i];
        if mon == Some(monitor) {
            out.push(id);
        }
        i += 1;
        proof {
            assert(ws@.take(i as int).drop_last() =~= ws@.take(i as int - 1));
            assert(ws@.take(i as int).last() == ws@[i as int - 1]);
            assert(out@ =~= spec_ids_on_monitor(ws@.take(i as int), monitor));
        }
    }
    proof {
        assert(ws@.take(n as int) =~= ws@);
    }
    out
}

/// Ascending order.
pub open spec fn sorted(s: Seq<i64>) -> bool {
    forall|i: int, j: int| 0 <= i < j < s.len() ==> s[i] <= s[j]
}

/// Sorts workspace ids ascending, keeping exactly the same ids.
pub fn sorted_ids(v: &Vec<i64>) -> (r: Vec<i64>)
    ensures
        sorted(r@),
        r@.to_multiset() == v@.to_multiset(),
{
    let n = v.len();
    let mut out: Vec<i64> = Vec::new();
    let mut i: usize = 0;
    while i < n
        invariant
            i <= n,
            n == v@.len(),
            sorted(out@),
            out@.to_multiset() == v@.take(i as int).to_multiset(),
        decreases n - i,
    {
        let x = v[i];
        let mut k: usize = 0;
        while k < out.len() && out[k] <= x
            invariant
                k <= out@.len(),
                forall|j: int| 0 <= j < k ==> out@[j] <= x,
            decreases out@.len() - k,
        {
            k += 1;
        }
        let ghost prev = out@;
        out.insert(k, x);
        i += 1;
        proof {
            assert(out@ == prev.insert(k as int, x));
            assert(sorted(out@)) by {
                assert forall|a: int, b: int| 0 <= a < b < out@.len() implies out@[a]
                    <= out@[b] by {
                    assert(k == prev.len() || prev[k as int] > x);
                }
            }
            assert(v@.take(i as int) =~= v@.take(i as int - 1).push(x));
            vstd::seq_lib::to_multiset_insert(prev, k as int, x);
        }
    }
    proof {
        assert(v@.take(n as int) =~= v@);
    }
    out
}

/// The icons for a sorted row of workspace ids: each id in one to ten gets
/// its glyph, active where the id is the active one, and other ids are
/// dropped.
pub open spec fn spec_glyph_row(ids: Seq<i64>, active_id: i64) -> Seq<Seq<char>>
    decreases ids.len(),
{
    if ids.len() == 0 {
        Seq::empty()
    } else {
        spec_glyph_row(ids.drop_last(), active_id) + (match spec_workspace_glyph(
            ids.last(),
            ids.last() == active_id,
        ) {
            Some(g) => seq![g],
            None => Seq::empty(),
        })
    }
}

/// Maps a row of workspace ids to their icons, in order.
pub fn glyph_row(ids: &Vec<i64>, active_id: i64) -> (r: Vec<String>)
    ensures
        r.deep_view() == spec_glyph_row(ids@, active_id),
{
    let n = ids.len();
    let mut out: Vec<String> = Vec::new();
    let mut i: usize = 0;
    proof {
        assert(out.deep_view() =~= spec_glyph_row(ids@.take(0), active_id));
    }
    while i < n
        invariant
            i <= n,
            n == ids@.len(),
            out.deep_view() == spec_glyph_row(ids@.take(i as int), active_id),
        decreases n - i,
    {
        let id = ids[i];
        match workspace_glyph(id, id == active_id) {
            Some(g) => {
                out.push(g);
            },
            None => {},
        }
        i += 1;
        proof {
            assert(ids@.take(i as int).drop_last() =~= ids@.take(i as int - 1));
            assert(ids@.take(i as int).last() == ids@[i as int - 1]);
            assert(out.deep_view() =~= spec_glyph_row(ids@.take(i as int), active_id));
        }
    }
    proof {
        assert(ids@.take(n as int) =~= ids@);
    }
    out
}

/// The whole workspace row: the workspaces on the monitor, sorted by id
/// ascending, mapped to icons with the active one highlighted.
pub fn workspace_glyphs(ws: &Vec<(i64, Option<i64>)>, monitor: i64, active_id: i64) -> (r: Vec<
    String,
>)
    ensures
        exists|s: Seq<i64>|
            {
                &&& s.to_multiset() == spec_ids_on_monitor(ws@, monitor).to_multiset()
                &&& sorted(s)
                &&& r.deep_view() == spec_glyph_row(s, active_id)
            },
{
    let ids = ids_on_monitor(ws, monitor);
    let ids = sorted_ids(&ids);
    let r = glyph_row(&ids, active_id);
    proof {
        let s = ids@;
        assert(s.to_multiset() == spec_ids_on_monitor(ws@, monitor).to_multiset() && sorted(s)
            && r.deep_view() == spec_glyph_row(s, active_id));
    }
    r
}

} // verus!
