//! The table of supported formats, and which of them can be rendered here.
use vstd::prelude::*;

use crate::dispatch::{
    format_manifest,
    lists,
    manifest_row,
    tier3_can_handle,
    FormatEntry,
    FormatRow,
    Tier3Registry,
    FORMAT_COUNT,
};
use crate::lines::{is_less, lemma_less_total, lemma_less_transitive, text_less};
use crate::media::FileKind;
use crate::number::{decimal, decimal_of};
use crate::pretty::{pad_to, padded_to};
use crate::text::{join2, join3, owned, push_text, same, texts};

verus! {

/// The order in which categories are listed.
pub open spec fn kind_rank(kind: FileKind) -> int {
    match kind {
        FileKind::Image => 0,
        FileKind::Video => 1,
        FileKind::Audio => 2,
        FileKind::Vector => 3,
        FileKind::Document => 4,
        FileKind::Geometry => 5,
        FileKind::Archive => 6,
        FileKind::Text => 7,
        FileKind::Binary => 8,
        FileKind::Unknown => 9,
    }
}

fn rank_of(kind: FileKind) -> (r: u8)
    ensures
        r == kind_rank(kind),
{
    match kind {
        FileKind::Image => 0,
        FileKind::Video => 1,
        FileKind::Audio => 2,
        FileKind::Vector => 3,
        FileKind::Document => 4,
        FileKind::Geometry => 5,
        FileKind::Archive => 6,
        FileKind::Text => 7,
        FileKind::Binary => 8,
        FileKind::Unknown => 9,
    }
}

/// One format is listed before another: by category, then by extension.
pub open spec fn row_less(a: FormatRow, b: FormatRow) -> bool {
    kind_rank(a.kind) < kind_rank(b.kind) || (a.kind == b.kind && text_less(
        a.extension,
        b.extension,
    ))
}

/// Manifest entry `m` is the one that its format is listed with: of the lowest
/// tier, and the first of those.
pub open spec fn is_listed(m: int) -> bool {
    &&& 0 <= m < FORMAT_COUNT
    &&& forall|k: int| #[trigger]
        lists(k, manifest_row(m).kind, manifest_row(m).extension) ==> manifest_row(m).tier
            < manifest_row(k).tier || (manifest_row(m).tier == manifest_row(k).tier && m <= k)
}

/// Whether a manifest entry is the one that its format is listed with.
fn entry_listed(manifest: &Vec<FormatEntry>, m: usize) -> (r: bool)
    requires
        manifest@.len() == FORMAT_COUNT,
        forall|i: int| 0 <= i < FORMAT_COUNT ==> (#[trigger] manifest@[i])@ == manifest_row(i),
        m < FORMAT_COUNT,
    ensures
        r == is_listed(m as int),
{
    let e = manifest[m];
    assert(manifest@[m as int]@ == manifest_row(m as int));
    let mut k: usize = 0;
    while k < FORMAT_COUNT
        invariant
            k <= FORMAT_COUNT,
            m < FORMAT_COUNT,
            manifest@.len() == FORMAT_COUNT,
            forall|i: int| 0 <= i < FORMAT_COUNT ==> (#[trigger] manifest@[i])@ == manifest_row(i),
            e@ == manifest_row(m as int),
            forall|j: int|
                0 <= j < k && #[trigger] lists(
                    j,
                    manifest_row(m as int).kind,
                    manifest_row(m as int).extension,
                ) ==> manifest_row(m as int).tier < manifest_row(j).tier || (manifest_row(
                    m as int,
                ).tier == manifest_row(j).tier && m <= j),
        decreases FORMAT_COUNT - k,
    {
        let o = manifest[k];
        assert(manifest@[k as int]@ == manifest_row(k as int));
        if o.kind == e.kind && same(o.extension, e.extension) {
            if !(e.tier < o.tier || (e.tier == o.tier && m <= k)) {
                assert(lists(k as int, manifest_row(m as int).kind, manifest_row(m as int).extension));
                return false;
            }
        }
        k += 1;
    }
    true
}

/// A row is that of a listed entry among the first `n`.
pub open spec fn listed_before(row: FormatRow, n: int) -> bool {
    exists|m: int| 0 <= m < n && #[trigger] is_listed(m) && row == manifest_row(m)
}

/// A row is in the list.
pub open spec fn in_list(out: Seq<FormatEntry>, row: FormatRow) -> bool {
    exists|i: int| 0 <= i < out.len() && (#[trigger] out[i])@ == row
}

/// Each row comes before all behind it.
pub open spec fn in_order(out: Seq<FormatEntry>) -> bool {
    forall|i: int, j: int|
        0 <= i < j < out.len() ==> row_less((#[trigger] out[i])@, (#[trigger] out[j])@)
}

/// The listed formats among the first `n` manifest entries, in listing order.
pub open spec fn lists_formats(out: Seq<FormatEntry>, n: int) -> bool {
    &&& in_order(out)
    &&& forall|i: int| 0 <= i < out.len() ==> listed_before((#[trigger] out[i])@, n)
    &&& forall|m: int| 0 <= m < n && #[trigger] is_listed(m) ==> in_list(out, manifest_row(m))
}

/// Two different listed entries are of different formats, and so one comes
/// before the other.
proof fn lemma_listed_distinct(a: int, b: int)
    requires
        is_listed(a),
        is_listed(b),
        a != b,
    ensures
        row_less(manifest_row(a), manifest_row(b)) || row_less(manifest_row(b), manifest_row(a)),
{
    if manifest_row(a).kind == manifest_row(b).kind {
        if manifest_row(a).extension == manifest_row(b).extension {
            assert(lists(b, manifest_row(a).kind, manifest_row(a).extension));
            assert(lists(a, manifest_row(b).kind, manifest_row(b).extension));
        } else {
            lemma_less_total(manifest_row(a).extension, manifest_row(b).extension);
        }
    }
}

proof fn lemma_row_trans(a: FormatRow, b: FormatRow, c: FormatRow)
    requires
        row_less(a, b),
        row_less(b, c),
    ensures
        row_less(a, c),
{
    if a.kind == b.kind && b.kind == c.kind {
        lemma_less_transitive(a.extension, b.extension, c.extension);
    }
}

/// Whether one format is listed before another.
fn entry_less(a: &FormatEntry, b: &FormatEntry) -> (r: bool)
    ensures
        r == row_less(a@, b@),
{
    let x: u8 = rank_of(a.kind);
    let y: u8 = rank_of(b.kind);
    x < y || (a.kind == b.kind && is_less(a.extension, b.extension))
}

/// Puts a listed entry in its place.
fn place_entry(out: &mut Vec<FormatEntry>, e: FormatEntry, m: usize)
    requires
        lists_formats(old(out)@, m as int),
        is_listed(m as int),
        e@ == manifest_row(m as int),
    ensures
        lists_formats(final(out)@, m + 1),
{
    let ghost before = out@;
    let n: usize = out.len();
    let mut p: usize = 0;
    while p < n && entry_less(&out[p], &e)
        invariant
            n == out@.len(),
            out@ == before,
            p <= n,
            forall|i: int| 0 <= i < p ==> row_less((#[trigger] before[i])@, e@),
        decreases n - p,
    {
        p += 1;
    }
    out.insert(p, e);
    proof {
        assert(out@ =~= before.insert(p as int, e));
        lemma_placed_order(before, e, p as int, m as int);
        lemma_placed_rows(before, e, p as int, m as int);
    }
}

/// An entry put behind all that come before it keeps the order.
proof fn lemma_placed_order(before: Seq<FormatEntry>, e: FormatEntry, p: int, m: int)
    requires
        lists_formats(before, m),
        is_listed(m),
        e@ == manifest_row(m),
        0 <= p <= before.len(),
        forall|i: int| 0 <= i < p ==> row_less((#[trigger] before[i])@, e@),
        p < before.len() ==> !row_less(before[p]@, e@),
    ensures
        in_order(before.insert(p, e)),
{
    let after = before.insert(p, e);
    assert forall|i: int| p <= i < before.len() implies row_less(e@, (#[trigger] before[i])@) by {
        assert(listed_before(before[p]@, m));
        let k = choose|k: int| 0 <= k < m && #[trigger] is_listed(k) && before[p]@ == manifest_row(k);
        lemma_listed_distinct(m, k);
        if i > p {
            assert(row_less(before[p]@, before[i]@));
            lemma_row_trans(e@, before[p]@, before[i]@);
        }
    }
    assert forall|i: int, j: int| 0 <= i < j < after.len() implies row_less(
        (#[trigger] after[i])@,
        (#[trigger] after[j])@,
    ) by {
        let a = if i <= p { i } else { i - 1 };
        let b = if j <= p { j } else { j - 1 };
        assert(i != p ==> after[i] == before[a]);
        assert(j != p ==> after[j] == before[b]);
        if i != p && j != p {
            assert(row_less(before[a]@, before[b]@));
        }
    }
}

/// An entry put into the list adds its own row and no other.
proof fn lemma_placed_rows(before: Seq<FormatEntry>, e: FormatEntry, p: int, m: int)
    requires
        lists_formats(before, m),
        is_listed(m),
        e@ == manifest_row(m),
        0 <= p <= before.len(),
    ensures
        forall|i: int| 0 <= i < before.len() + 1 ==> listed_before((#[trigger] before.insert(p, e)[i])@, m + 1),
        forall|k: int| 0 <= k < m + 1 && #[trigger] is_listed(k) ==> in_list(before.insert(p, e), manifest_row(k)),
{
    let after = before.insert(p, e);
    assert forall|i: int| 0 <= i < before.len() + 1 implies listed_before((#[trigger] after[i])@, m + 1) by {
        if i != p {
            let b = if i < p { i } else { i - 1 };
            assert(after[i] == before[b]);
            assert(listed_before(before[b]@, m));
            let k = choose|k: int| 0 <= k < m && #[trigger] is_listed(k) && before[b]@ == manifest_row(k);
            assert(is_listed(k));
        } else {
            assert(is_listed(m));
        }
    }
    assert forall|k: int| 0 <= k < m + 1 && #[trigger] is_listed(k) implies in_list(after, manifest_row(k)) by {
        if k == m {
            assert(after[p]@ == manifest_row(k));
        } else {
            assert(in_list(before, manifest_row(k)));
            let b = choose|b: int| 0 <= b < before.len() && (#[trigger] before[b])@ == manifest_row(k);
            let i = if b < p { b } else { b + 1 };
            assert(after[i] == before[b]);
        }
    }
}

/// Every format once, with the lowest tier that handles it: by category, and
/// within a category by extension.
pub fn supported_formats() -> (r: Vec<FormatEntry>)
    ensures
        lists_formats(r@, FORMAT_COUNT as int),
{
    let manifest = format_manifest();
    let mut out: Vec<FormatEntry> = Vec::new();
    let mut m: usize = 0;
    while m < FORMAT_COUNT
        invariant
            m <= FORMAT_COUNT,
            manifest@.len() == FORMAT_COUNT,
            forall|i: int| 0 <= i < FORMAT_COUNT ==> (#[trigger] manifest@[i])@ == manifest_row(i),
            lists_formats(out@, m as int),
        decreases FORMAT_COUNT - m,
    {
        assert(manifest@[m as int]@ == manifest_row(m as int));
        if entry_listed(&manifest, m) {
            place_entry(&mut out, manifest[m], m);
        } else {
            proof {
                assert forall|i: int| 0 <= i < out@.len() implies listed_before((#[trigger] out@[i])@, m + 1) by {
                    assert(listed_before(out@[i]@, m as int));
                    let k = choose|k: int| 0 <= k < m && #[trigger] is_listed(k) && out@[i]@ == manifest_row(k);
                    assert(is_listed(k));
                }
            }
        }
        m += 1;
    }
    out
}

/// Whether a tier is there: tier 1 always, the others as configured.
pub fn tier_available(tier: u8, tier2_available: bool, tier3_available: bool) -> (r: bool)
    ensures
        r == (tier == 1 || (tier == 2 && tier2_available) || (tier == 3 && tier3_available)),
{
    match tier {
        1 => true,
        2 => tier2_available,
        3 => tier3_available,
        _ => false,
    }
}

/// A format can be rendered: its tier is there, and tier 3 handles it.
pub open spec fn enabled(e: FormatRow, tier2: bool, tier3: bool, registry: Tier3Registry) -> bool {
    e.tier == 1 || (e.tier == 2 && tier2) || (e.tier == 3 && tier3 && registry.handles(e.extension))
}

/// Whether a format can be rendered.
pub fn format_enabled(
    entry: &FormatEntry,
    tier2_available: bool,
    tier3_available: bool,
    registry: &Tier3Registry,
) -> (r: bool)
    ensures
        r == enabled(entry@, tier2_available, tier3_available, *registry),
{
    match entry.tier {
        1 => true,
        2 => tier2_available,
        3 => tier3_available && tier3_can_handle(registry, entry.extension),
        _ => false,
    }
}

/// A category's name in the table.
pub open spec fn kind_title(kind: FileKind) -> Seq<char> {
    match kind {
        FileKind::Image => "Image"@,
        FileKind::Video => "Video"@,
        FileKind::Audio => "Audio"@,
        FileKind::Vector => "Vector"@,
        FileKind::Document => "Document"@,
        FileKind::Geometry => "Geometry"@,
        FileKind::Archive => "Archive"@,
        FileKind::Text => "Text"@,
        FileKind::Binary => "Binary"@,
        FileKind::Unknown => "Unknown"@,
    }
}

/// Names a category in the table.
pub fn kind_heading(kind: FileKind) -> (r: &'static str)
    ensures
        r@ == kind_title(kind),
{
    match kind {
        FileKind::Image => "Image",
        FileKind::Video => "Video",
        FileKind::Audio => "Audio",
        FileKind::Vector => "Vector",
        FileKind::Document => "Document",
        FileKind::Geometry => "Geometry",
        FileKind::Archive => "Archive",
        FileKind::Text => "Text",
        FileKind::Binary => "Binary",
        FileKind::Unknown => "Unknown",
    }
}

/// How many of the first `n` formats are of a category.
pub open spec fn kind_count(list: Seq<FormatEntry>, kind: FileKind, n: int) -> nat
    decreases n,
{
    if n <= 0 {
        0
    } else {
        kind_count(list, kind, n - 1) + if list[n - 1].kind == kind {
            1nat
        } else {
            0nat
        }
    }
}

fn count_kind(list: &Vec<FormatEntry>, kind: FileKind) -> (r: usize)
    ensures
        r == kind_count(list@, kind, list@.len() as int),
{
    let mut n: usize = 0;
    let mut i: usize = 0;
    while i < list.len()
        invariant
            i <= list@.len(),
            n <= i,
            n == kind_count(list@, kind, i as int),
        decreases list@.len() - i,
    {
        if list[i].kind == kind {
            n += 1;
        }
        i += 1;
    }
    n
}

/// The line above the formats of a category.
pub open spec fn heading_line(kind: FileKind, count: nat) -> Seq<char> {
    "  "@ + kind_title(kind) + " ("@ + decimal(count) + (if count == 1 {
        " format)"@
    } else {
        " formats)"@
    })
}

/// The line of a format: extension, label, tier, and whether tier 1 has a
/// shortcut for it.
pub open spec fn format_line(e: FormatRow, can: bool) -> Seq<char> {
    "    "@ + padded_to(e.extension, 8) + "  "@ + padded_to(e.label, 24) + "  tier "@ + decimal(
        e.tier as nat,
    ) + (if !can && 1 <= e.tier <= 3 {
        " (unavailable)"@
    } else {
        ""@
    }) + (if e.shortcut {
        " [shortcut]"@
    } else {
        ""@
    })
}

/// How many of the first `n` formats can be rendered.
pub open spec fn enabled_count(
    list: Seq<FormatEntry>,
    tier2: bool,
    tier3: bool,
    registry: Tier3Registry,
    n: int,
) -> nat
    decreases n,
{
    if n <= 0 {
        0
    } else {
        enabled_count(list, tier2, tier3, registry, n - 1) + if enabled(
            list[n - 1]@,
            tier2,
            tier3,
            registry,
        ) {
            1nat
        } else {
            0nat
        }
    }
}

/// A new category starts with format `i`.
pub open spec fn starts_kind(list: Seq<FormatEntry>, i: int) -> bool {
    i == 0 || list[i - 1].kind != list[i].kind
}

/// The table up to its first `n` formats: a blank line between two categories,
/// and a heading above each.
pub open spec fn table_lines(
    list: Seq<FormatEntry>,
    tier2: bool,
    tier3: bool,
    registry: Tier3Registry,
    n: int,
) -> Seq<Seq<char>>
    decreases n,
{
    if n <= 0 {
        seq!["Thumbrella - Supported Formats"@, ""@]
    } else {
        let i = n - 1;
        let above = table_lines(list, tier2, tier3, registry, i);
        let above = if starts_kind(list, i) && i > 0 {
            above.push(""@)
        } else {
            above
        };
        let above = if starts_kind(list, i) {
            above.push(heading_line(list[i].kind, kind_count(list, list[i].kind, list.len() as int)))
        } else {
            above
        };
        above.push(format_line(list[i]@, enabled(list[i]@, tier2, tier3, registry)))
    }
}

/// The line that sums the table up.
pub open spec fn summary_line(defined: nat, can: nat) -> Seq<char> {
    "  Summary:  "@ + decimal(defined) + " defined, "@ + decimal(can) + " enabled"@
}

/// What stands below the table.
pub open spec fn legend_lines(tier2: bool, tier3: bool) -> Seq<Seq<char>> {
    let s = seq![
        ""@,
        "  Legend:"@,
        "    tier N  tier available and configured"@,
        "    tier N (unavailable)  tier not configured (format will use placeholder)"@,
        "    [shortcut]  shortcut: tier 1 can extract embedded thumbnail without full decode"@,
        ""@,
        "  Tier 1 formats are always available."@,
    ];
    let s = if !tier2 {
        s.push("  Tier 2 is NOT configured - set TBR_TIER2 to enable."@)
    } else {
        s
    };
    if !tier3 {
        s.push("  Tier 3 is NOT configured - set TBR_TIER3 to enable."@)
    } else {
        s
    }
}

fn write_heading(kind: FileKind, count: usize) -> (r: String)
    ensures
        r@ == heading_line(kind, count as nat),
{
    let n = decimal_of(count as u64);
    let head = join3("  ", kind_heading(kind), " (").concat(n.as_str());
    if count == 1 {
        head.concat(" format)")
    } else {
        head.concat(" formats)")
    }
}

fn write_format(e: &FormatEntry, can: bool) -> (r: String)
    ensures
        r@ == format_line(e@, can),
{
    let left = join2("    ", pad_to(e.extension, 8).as_str()).concat("  ").concat(
        pad_to(e.label, 24).as_str(),
    ).concat("  tier ").concat(decimal_of(e.tier as u64).as_str());
    let note = if !can && 1 <= e.tier && e.tier <= 3 {
        left.concat(" (unavailable)")
    } else {
        left.concat("")
    };
    if e.shortcut {
        note.concat(" [shortcut]")
    } else {
        note.concat("")
    }
}

fn write_legend(tier2: bool, tier3: bool) -> (r: Vec<String>)
    ensures
        texts(r@) == legend_lines(tier2, tier3),
{
    let mut out: Vec<String> = Vec::new();
    push_text(&mut out, owned(""));
    push_text(&mut out, owned("  Legend:"));
    push_text(&mut out, owned("    tier N  tier available and configured"));
    push_text(
        &mut out,
        owned("    tier N (unavailable)  tier not configured (format will use placeholder)"),
    );
    push_text(
        &mut out,
        owned("    [shortcut]  shortcut: tier 1 can extract embedded thumbnail without full decode"),
    );
    push_text(&mut out, owned(""));
    push_text(&mut out, owned("  Tier 1 formats are always available."));
    assert(texts(out@) =~= legend_lines(true, true));
    if !tier2 {
        push_text(&mut out, owned("  Tier 2 is NOT configured - set TBR_TIER2 to enable."));
    }
    if !tier3 {
        push_text(&mut out, owned("  Tier 3 is NOT configured - set TBR_TIER3 to enable."));
    }
    out
}

/// Finds the end of the group of formats of one category that starts at `start`.
pub fn group_end(list: &Vec<FormatEntry>, start: usize) -> (r: usize)
    requires
        start < list@.len(),
    ensures
        start < r <= list@.len(),
        forall|i: int| start <= i < r ==> (#[trigger] list@[i]).kind == list@[start as int].kind,
        r < list@.len() ==> list@[r as int].kind != list@[start as int].kind,
{
    let n: usize = list.len();
    let mut end: usize = start + 1;
    while end < n && list[end].kind == list[start].kind
        invariant
            n == list@.len(),
            start < end <= n,
            forall|i: int|
                start <= i < end ==> (#[trigger] list@[i]).kind == list@[start as int].kind,
        decreases n - end,
    {
        end += 1;
    }
    end
}

/// The whole listing: the table, its summary, and the legend.
pub open spec fn listing(
    list: Seq<FormatEntry>,
    tier2: bool,
    tier3: bool,
    registry: Tier3Registry,
) -> Seq<Seq<char>> {
    let n = list.len() as int;
    let table = table_lines(list, tier2, tier3, registry, n);
    let table = if n > 0 {
        table.push(""@)
    } else {
        table
    };
    table.push(
        summary_line(n as nat, enabled_count(list, tier2, tier3, registry, n)),
    ) + legend_lines(tier2, tier3)
}

/// Writes the listing of formats.
pub fn format_lines(
    list: &Vec<FormatEntry>,
    tier2_available: bool,
    tier3_available: bool,
    registry: &Tier3Registry,
) -> (r: Vec<String>)
    ensures
        texts(r@) == listing(list@, tier2_available, tier3_available, *registry),
{
    let mut out: Vec<String> = Vec::new();
    push_text(&mut out, owned("Thumbrella - Supported Formats"));
    push_text(&mut out, owned(""));
    assert(texts(out@) =~= table_lines(list@, tier2_available, tier3_available, *registry, 0));
    let mut can: usize = 0;
    let mut i: usize = 0;
    while i < list.len()
        invariant
            i <= list@.len(),
            can <= i,
            can == enabled_count(list@, tier2_available, tier3_available, *registry, i as int),
            texts(out@) == table_lines(list@, tier2_available, tier3_available, *registry, i as int),
        decreases list@.len() - i,
    {
        let e = list[i];
        let starts = i == 0 || list[i - 1].kind != e.kind;
        if starts {
            if i > 0 {
                push_text(&mut out, owned(""));
            }
            push_text(&mut out, write_heading(e.kind, count_kind(list, e.kind)));
        }
        let renders = format_enabled(&e, tier2_available, tier3_available, registry);
        if renders {
            can += 1;
        }
        push_text(&mut out, write_format(&e, renders));
        i += 1;
    }
    if list.len() > 0 {
        push_text(&mut out, owned(""));
    }
    let defined = decimal_of(list.len() as u64);
    let ready = decimal_of(can as u64);
    push_text(
        &mut out,
        join3("  Summary:  ", defined.as_str(), " defined, ").concat(ready.as_str()).concat(
            " enabled",
        ),
    );
    let mut below = write_legend(tier2_available, tier3_available);
    let ghost above = out@;
    out.append(&mut below);
    assert(texts(out@) =~= texts(above) + legend_lines(tier2_available, tier3_available));
    out
}

} // verus!
