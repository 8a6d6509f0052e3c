//! The lines `ls` prints: which entries a directory shows, in which order,
//! and how each is written, in the short or the long format.
use vstd::prelude::*;
use vstd::utf8::encode_utf8;
use crate::numbers::{decimal, push_decimal};
use crate::text::{
    chars_of, joined, pad_left, pad_right, push_all, push_padded_left, push_padded_right,
    string_of, views,
};
use super::LsOptions;
use super::entry::{DeviceLayout, EntryMeta, LsEntry};
use super::ids::{IdTable, name_or_number_spec};
use super::mode::{
    classify_mark, darwin_major, darwin_minor, format_mode, glibc_major, glibc_minor, indicator,
    darwin_makedev, glibc_makedev, is_device_mode, law_darwin_device_round_trip,
    law_glibc_device_round_trip, major_minor, major_minor_darwin, mode_string,
};
use super::sort::{named, sort_by_name, sorted_by_name, total_blocks};
use super::time::{format_mtime, mtime_text};

verus! {

// ---------------------------------------------------------------------------
// Columns
// ---------------------------------------------------------------------------

/// The major and minor numbers of a device number on a platform.
pub open spec fn device_numbers(layout: DeviceLayout, rdev: u64) -> (nat, nat) {
    match layout {
        DeviceLayout::Glibc => (glibc_major(rdev) as nat, glibc_minor(rdev) as nat),
        DeviceLayout::Darwin => (darwin_major(rdev) as nat, darwin_minor(rdev) as nat),
    }
}

/// The size column: `major, minor` for a device, the size in bytes otherwise.
pub open spec fn size_column(m: EntryMeta, layout: DeviceLayout) -> Seq<char> {
    if is_device_mode(m.mode) {
        decimal(device_numbers(layout, m.rdev).0) + seq![',', ' '] + decimal(
            device_numbers(layout, m.rdev).1,
        )
    } else {
        decimal(m.size as nat)
    }
}

/// The name as shown: with its type mark under `-F`.
pub open spec fn shown_name(name: Seq<char>, m: EntryMeta, classify: bool) -> Seq<char> {
    if classify {
        match indicator(m.mode, m.is_dir, m.is_symlink) {
            Some(c) => name.push(c),
            None => name,
        }
    } else {
        name
    }
}

/// The time column.
pub open spec fn time_column(m: EntryMeta) -> Seq<char> {
    mtime_text(
        match m.mtime_text {
            Some(t) => Some(t@),
            None => None,
        },
    )
}

/// The columns of a long-format line, in order: mode, links, owner, group,
/// size, time, name.
pub open spec fn long_columns(
    name: Seq<char>,
    m: EntryMeta,
    classify: bool,
    users: Map<u32, Seq<char>>,
    groups: Map<u32, Seq<char>>,
    layout: DeviceLayout,
) -> Seq<Seq<char>> {
    seq![
        mode_string(m.mode, m.is_dir, m.is_symlink),
        decimal(m.nlink as nat),
        name_or_number_spec(users, m.uid),
        name_or_number_spec(groups, m.gid),
        size_column(m, layout),
        time_column(m),
        shown_name(name, m, classify),
    ]
}

/// The widths of the links, owner, group and size columns.
pub struct Widths {
    pub links: usize,
    pub owner: usize,
    pub group: usize,
    pub size: usize,
}

/// A long-format line: the columns separated by single spaces, links and
/// size right-aligned, owner and group left-aligned, each in its width.
pub open spec fn long_line(cols: Seq<Seq<char>>, w: Widths) -> Seq<char> {
    cols[0] + seq![' '] + pad_left(cols[1], w.links as int) + seq![' '] + pad_right(
        cols[2],
        w.owner as int,
    ) + seq![' '] + pad_right(cols[3], w.group as int) + seq![' '] + pad_left(
        cols[4],
        w.size as int,
    ) + seq![' '] + cols[5] + seq![' '] + cols[6]
}

/// How many bytes the UTF-8 text `s` takes (what `str::len` gives).
pub open spec fn byte_width(s: Seq<char>) -> usize {
    encode_utf8(s).len() as usize
}

/// The columns of every entry.
pub open spec fn all_columns(
    entries: Seq<LsEntry>,
    classify: bool,
    users: Map<u32, Seq<char>>,
    groups: Map<u32, Seq<char>>,
    layout: DeviceLayout,
) -> Seq<Seq<Seq<char>>> {
    entries.map_values(
        |e: LsEntry| long_columns(e.name@, e.meta, classify, users, groups, layout),
    )
}

/// The largest byte width of column `k` over the rows.
pub open spec fn column_width(rows: Seq<Seq<Seq<char>>>, k: int) -> usize
    decreases rows.len(),
{
    if rows.len() == 0 {
        0
    } else {
        let rest = column_width(rows.drop_last(), k);
        let w = byte_width(rows.last()[k]);
        if w > rest {
            w
        } else {
            rest
        }
    }
}

/// The widths that align the long format over all the rows.
pub open spec fn widths_of(rows: Seq<Seq<Seq<char>>>) -> Widths {
    Widths {
        links: column_width(rows, 1),
        owner: column_width(rows, 2),
        group: column_width(rows, 3),
        size: column_width(rows, 4),
    }
}

/// `total <n>`: the blocks the entries take.
pub open spec fn total_line(entries: Seq<LsEntry>) -> Seq<char> {
    seq!['t', 'o', 't', 'a', 'l', ' '] + decimal(total_blocks(entries))
}

/// What `ls` prints for a directory's entries (already in order): nothing
/// when there are none; in the long format a `total` line and one aligned
/// line per entry; otherwise one line of the shown names separated by two
/// spaces.
pub open spec fn listing(
    entries: Seq<LsEntry>,
    long: bool,
    classify: bool,
    users: Map<u32, Seq<char>>,
    groups: Map<u32, Seq<char>>,
    layout: DeviceLayout,
) -> Seq<Seq<char>> {
    if entries.len() == 0 {
        seq![]
    } else if long {
        let rows = all_columns(entries, classify, users, groups, layout);
        seq![total_line(entries)] + rows.map_values(|r: Seq<Seq<char>>| long_line(r, widths_of(rows)))
    } else {
        seq![
            joined(
                entries.map_values(|e: LsEntry| shown_name(e.name@, e.meta, classify)),
                seq![' ', ' '],
            ),
        ]
    }
}

/// What `ls` prints for a path that is not a directory: in the long format
/// its columns without alignment, otherwise its shown name.
pub open spec fn file_line(
    name: Seq<char>,
    m: EntryMeta,
    long: bool,
    classify: bool,
    users: Map<u32, Seq<char>>,
    groups: Map<u32, Seq<char>>,
    layout: DeviceLayout,
) -> Seq<char> {
    if long {
        long_line(
            long_columns(name, m, classify, users, groups, layout),
            Widths { links: 0, owner: 0, group: 0, size: 0 },
        )
    } else {
        shown_name(name, m, classify)
    }
}

// ---------------------------------------------------------------------------
// Building the columns
// ---------------------------------------------------------------------------

/// The size column of an entry.
fn size_text(m: &EntryMeta, layout: &DeviceLayout) -> (s: Vec<char>)
    ensures
        s@ == size_column(*m, *layout),
{
    let mut out: Vec<char> = Vec::new();
    let t = m.mode & 0o170000;
    if t == 0o060000 || t == 0o020000 {
        let (major, minor) = match layout {
            DeviceLayout::Glibc => major_minor(m.rdev),
            DeviceLayout::Darwin => major_minor_darwin(m.rdev),
        };
        push_decimal(&mut out, major as u64);
        out.push(',');
        out.push(' ');
        push_decimal(&mut out, minor as u64);
        assert(out@ =~= size_column(*m, *layout));
    } else {
        push_decimal(&mut out, m.size);
    }
    out
}

/// The name of an entry as shown.
fn name_text(name: &str, m: &EntryMeta, classify: bool) -> (s: Vec<char>)
    ensures
        s@ == shown_name(name@, *m, classify),
{
    let mut out = chars_of(name);
    if classify {
        if let Some(c) = classify_mark(m.mode, m.is_dir, m.is_symlink) {
            out.push(c);
        }
    }
    out
}

/// The seven columns of an entry, as strings.
fn columns_of(
    name: &str,
    m: &EntryMeta,
    classify: bool,
    users: &IdTable,
    groups: &IdTable,
    layout: &DeviceLayout,
) -> (c: Vec<String>)
    ensures
        c@.len() == 7,
        views(c@) == long_columns(name@, *m, classify, users@, groups@, *layout),
{
    let mut c: Vec<String> = Vec::new();
    c.push(format_mode(m.mode, m.is_dir, m.is_symlink));
    let mut links: Vec<char> = Vec::new();
    push_decimal(&mut links, m.nlink);
    assert(links@ =~= decimal(m.nlink as nat));
    c.push(string_of(links.as_slice()));
    c.push(users.name_or_number(m.uid));
    c.push(groups.name_or_number(m.gid));
    let size = size_text(m, layout);
    c.push(string_of(size.as_slice()));
    let time = match &m.mtime_text {
        Some(t) => format_mtime(Some(t.as_str())),
        None => format_mtime(None),
    };
    c.push(time);
    let shown = name_text(name, m, classify);
    c.push(string_of(shown.as_slice()));
    assert(views(c@) =~= long_columns(name@, *m, classify, users@, groups@, *layout));
    c
}

/// Appends a long-format line.
fn push_long_line(out: &mut Vec<char>, cols: &Vec<String>, w: &Widths)
    requires
        cols@.len() == 7,
    ensures
        final(out)@ == old(out)@ + long_line(views(cols@), *w),
{
    let ghost start = out@;
    let c0 = chars_of(cols[0].as_str());
    let c1 = chars_of(cols[1].as_str());
    let c2 = chars_of(cols[2].as_str());
    let c3 = chars_of(cols[3].as_str());
    let c4 = chars_of(cols[4].as_str());
    let c5 = chars_of(cols[5].as_str());
    let c6 = chars_of(cols[6].as_str());
    push_all(out, c0.as_slice());
    out.push(' ');
    push_padded_left(out, c1.as_slice(), w.links);
    out.push(' ');
    push_padded_right(out, c2.as_slice(), w.owner);
    out.push(' ');
    push_padded_right(out, c3.as_slice(), w.group);
    out.push(' ');
    push_padded_left(out, c4.as_slice(), w.size);
    out.push(' ');
    push_all(out, c5.as_slice());
    out.push(' ');
    push_all(out, c6.as_slice());
    proof {
        let v = views(cols@);
        assert(v[0] == c0@ && v[1] == c1@ && v[2] == c2@ && v[3] == c3@);
        assert(v[4] == c4@ && v[5] == c5@ && v[6] == c6@);
        assert(out@ =~= start + long_line(v, *w));
    }
}

/// What `ls` prints for a path that is not a directory.
pub fn render_file(
    name: &str,
    m: &EntryMeta,
    opts: &LsOptions,
    users: &IdTable,
    groups: &IdTable,
    layout: &DeviceLayout,
) -> (line: String)
    ensures
        line@ == file_line(name@, *m, opts.long, opts.classify, users@, groups@, *layout),
{
    if opts.long {
        let cols = columns_of(name, m, opts.classify, users, groups, layout);
        let mut out: Vec<char> = Vec::new();
        push_long_line(&mut out, &cols, &Widths { links: 0, owner: 0, group: 0, size: 0 });
        assert(out@ =~= long_line(views(cols@), Widths { links: 0, owner: 0, group: 0, size: 0 }));
        string_of(out.as_slice())
    } else {
        let shown = name_text(name, m, opts.classify);
        string_of(shown.as_slice())
    }
}


/// The blocks of a prefix never exceed those of the whole.
proof fn lemma_total_blocks_prefix(s: Seq<LsEntry>, i: int)
    requires
        0 <= i <= s.len(),
    ensures
        total_blocks(s.take(i)) <= total_blocks(s),
    decreases s.len() - i,
{
    if i < s.len() {
        assert(s.drop_last().take(i) == s.take(i));
        lemma_total_blocks_prefix(s.drop_last(), i);
    } else {
        assert(s.take(i) == s);
    }
}

/// The views of rows of strings.
pub open spec fn rows_view(rows: Seq<Vec<String>>) -> Seq<Seq<Seq<char>>> {
    rows.map_values(|r: Vec<String>| views(r@))
}

/// The width of column `k` over all rows.
fn width_of(rows: &Vec<Vec<String>>, k: usize) -> (w: usize)
    requires
        k < 7,
        forall|j: int| 0 <= j < rows@.len() ==> (#[trigger] rows@[j])@.len() == 7,
    ensures
        w == column_width(rows_view(rows@), k as int),
{
    let mut w: usize = 0;
    let mut j: usize = 0;
    while j < rows.len()
        invariant
            j <= rows@.len(),
            k < 7,
            forall|j: int| 0 <= j < rows@.len() ==> (#[trigger] rows@[j])@.len() == 7,
            w == column_width(rows_view(rows@).take(j as int), k as int),
        decreases rows@.len() - j,
    {
        let ghost pre = rows_view(rows@).take(j as int);
        let ghost post = rows_view(rows@).take(j + 1);
        assert(post.drop_last() == pre);
        assert(post.last() == views(rows@[j as int]@));
        assert(views(rows@[j as int]@)[k as int] == rows@[j as int]@[k as int]@);
        let n = rows[j][k].as_str().len();
        if n > w {
            w = n;
        }
        j = j + 1;
    }
    assert(rows_view(rows@).take(rows@.len() as int) == rows_view(rows@));
    w
}

/// What `ls` prints for a directory's entries, already in order.
pub fn render_entries(
    entries: &Vec<LsEntry>,
    opts: &LsOptions,
    users: &IdTable,
    groups: &IdTable,
    layout: &DeviceLayout,
) -> (lines: Vec<String>)
    requires
        opts.long ==> total_blocks(entries@) <= u64::MAX,
    ensures
        views(lines@) == listing(entries@, opts.long, opts.classify, users@, groups@, *layout),
{
    let mut lines: Vec<String> = Vec::new();
    if entries.len() == 0 {
        assert(views(lines@) =~= Seq::<Seq<char>>::empty());
        return lines;
    }
    if opts.long {
        let ghost all_rows = all_columns(entries@, opts.classify, users@, groups@, *layout);
        let mut total: u64 = 0;
        let mut rows: Vec<Vec<String>> = Vec::new();
        let mut i: usize = 0;
        while i < entries.len()
            invariant
                i <= entries@.len(),
                total_blocks(entries@) <= u64::MAX,
                total == total_blocks(entries@.take(i as int)),
                all_rows == all_columns(entries@, opts.classify, users@, groups@, *layout),
                rows@.len() == i,
                forall|j: int| 0 <= j < i ==> (#[trigger] rows@[j])@.len() == 7,
                forall|j: int| 0 <= j < i ==> views((#[trigger] rows@[j])@) == all_rows[j],
            decreases entries@.len() - i,
        {
            proof {
                assert(entries@.take(i + 1).drop_last() == entries@.take(i as int));
                lemma_total_blocks_prefix(entries@, i + 1);
            }
            let e = &entries[i];
            total = total + e.meta.blocks;
            let cols = columns_of(e.name.as_str(), &e.meta, opts.classify, users, groups, layout);
            rows.push(cols);
            i = i + 1;
        }
        assert(entries@.take(entries@.len() as int) == entries@);
        assert(rows_view(rows@) =~= all_rows);
        let w = Widths {
            links: width_of(&rows, 1),
            owner: width_of(&rows, 2),
            group: width_of(&rows, 3),
            size: width_of(&rows, 4),
        };
        let mut head: Vec<char> = vec!['t', 'o', 't', 'a', 'l', ' '];
        push_decimal(&mut head, total);
        assert(head@ =~= total_line(entries@));
        lines.push(string_of(head.as_slice()));
        let mut j: usize = 0;
        while j < rows.len()
            invariant
                j <= rows@.len(),
                rows@.len() == entries@.len(),
                all_rows == rows_view(rows@),
                w == widths_of(all_rows),
                forall|k: int| 0 <= k < rows@.len() ==> (#[trigger] rows@[k])@.len() == 7,
                lines@.len() == j + 1,
                views(lines@)[0] == total_line(entries@),
                forall|k: int|
                    0 <= k < j ==> views(lines@)[k + 1] == long_line(#[trigger] all_rows[k], w),
            decreases rows@.len() - j,
        {
            let mut line: Vec<char> = Vec::new();
            push_long_line(&mut line, &rows[j], &w);
            assert(line@ =~= long_line(all_rows[j as int], w));
            let ghost before = lines@;
            lines.push(string_of(line.as_slice()));
            assert(views(lines@) == views(before).push(line@));
            j = j + 1;
        }
        assert(views(lines@) =~= seq![total_line(entries@)] + all_rows.map_values(
            |r: Seq<Seq<char>>| long_line(r, widths_of(all_rows)),
        ));
        lines
    } else {
        let mut names: Vec<String> = Vec::new();
        let mut i: usize = 0;
        while i < entries.len()
            invariant
                i <= entries@.len(),
                names@.len() == i,
                forall|j: int|
                    0 <= j < i ==> views(names@)[j] == shown_name(
                        #[trigger] entries@[j].name@,
                        entries@[j].meta,
                        opts.classify,
                    ),
            decreases entries@.len() - i,
        {
            let e = &entries[i];
            let shown = name_text(e.name.as_str(), &e.meta, opts.classify);
            let ghost before = names@;
            names.push(string_of(shown.as_slice()));
            assert(views(names@) == views(before).push(shown@));
            i = i + 1;
        }
        assert(views(names@) =~= entries@.map_values(
            |e: LsEntry| shown_name(e.name@, e.meta, opts.classify),
        ));
        let sep = string_of(&[' ', ' ']);
        assert(sep@ =~= seq![' ', ' ']);
        let line = crate::text::join(&names, sep.as_str());
        lines.push(line);
        assert(views(lines@) =~= seq![line@]);
        lines
    }
}


/// What reading a directory gave: the metadata of the directory itself and
/// of its parent (when they could be read), and each entry's name with its
/// metadata (when that could be read).
pub struct DirContents {
    pub dot: Option<EntryMeta>,
    pub dotdot: Option<EntryMeta>,
    pub read: Vec<(String, Option<EntryMeta>)>,
}

/// A name that `ls` hides without `-a`: one that begins with `.`.
pub open spec fn hidden(name: Seq<char>) -> bool {
    name.len() > 0 && name[0] == '.'
}

/// The entries read that `ls` shows, in the order read: those whose
/// metadata was read, and without `-a` only those not hidden.
pub open spec fn shown_entries(read: Seq<(String, Option<EntryMeta>)>, all: bool) -> Seq<
    (Seq<char>, EntryMeta),
>
    decreases read.len(),
{
    if read.len() == 0 {
        seq![]
    } else {
        let rest = shown_entries(read.drop_last(), all);
        let (name, meta) = read.last();
        if (all || !hidden(name@)) && meta is Some {
            rest.push((name@, meta->0))
        } else {
            rest
        }
    }
}

/// With `-a`, `.` and `..` (those whose metadata was read) come first.
pub open spec fn dot_entries(c: DirContents, all: bool) -> Seq<(Seq<char>, EntryMeta)> {
    if !all {
        seq![]
    } else {
        (if c.dot is Some {
            seq![(seq!['.'], c.dot->0)]
        } else {
            seq![]
        }) + (if c.dotdot is Some {
            seq![(seq!['.', '.'], c.dotdot->0)]
        } else {
            seq![]
        })
    }
}

/// The entries a directory listing shows, before sorting.
pub open spec fn listed(c: DirContents, all: bool) -> Seq<(Seq<char>, EntryMeta)> {
    dot_entries(c, all) + shown_entries(c.read@, all)
}

/// Names and metadata of entries.
pub open spec fn entry_views(s: Seq<LsEntry>) -> Seq<(Seq<char>, EntryMeta)> {
    s.map_values(|e: LsEntry| (e.name@, e.meta))
}

/// The blocks of every metadata that reading a directory gave.
pub open spec fn read_blocks(read: Seq<(String, Option<EntryMeta>)>) -> nat
    decreases read.len(),
{
    if read.len() == 0 {
        0
    } else {
        read_blocks(read.drop_last()) + match read.last().1 {
            Some(m) => m.blocks as nat,
            None => 0,
        }
    }
}

/// The blocks of everything in a directory's contents: an upper bound of
/// what any listing of it adds up.
pub open spec fn contents_blocks(c: DirContents) -> nat {
    (match c.dot {
        Some(m) => m.blocks as nat,
        None => 0,
    }) + (match c.dotdot {
        Some(m) => m.blocks as nat,
        None => 0,
    }) + read_blocks(c.read@)
}

/// Keeps what a listing shows of a directory's contents, in that order.
pub fn collect_entries(contents: DirContents, all: bool) -> (v: Vec<LsEntry>)
    ensures
        entry_views(v@) == listed(contents, all),
        total_blocks(v@) <= contents_blocks(contents),
{
    let ghost c = contents;
    let DirContents { dot, dotdot, read } = contents;
    let mut v: Vec<LsEntry> = Vec::new();
    if all {
        match dot {
            Some(m) => {
                let name = string_of(&['.']);
                assert(name@ =~= seq!['.']);
                v.push(LsEntry { name, meta: m });
                assert(v@.len() == 1 && v@[0].name@ == seq!['.'] && v@[0].meta == m);
                assert(entry_views(v@)[0] == (seq!['.'], m));
                assert(entry_views(v@) =~= seq![(seq!['.'], m)]);
                assert(v@.drop_last() =~= Seq::<LsEntry>::empty());
                assert(total_blocks(Seq::<LsEntry>::empty()) == 0);
                assert(v@.last() == v@[0]);
                assert(total_blocks(v@) == m.blocks);
            },
            None => {
                assert(v@ =~= Seq::<LsEntry>::empty());
            },
        }
        let ghost first = v@;
        assert(total_blocks(first) == match c.dot {
            Some(m) => m.blocks as nat,
            None => 0,
        });
        match dotdot {
            Some(m) => {
                let name = string_of(&['.', '.']);
                assert(name@ =~= seq!['.', '.']);
                v.push(LsEntry { name, meta: m });
                assert(entry_views(v@) =~= entry_views(first) + seq![(seq!['.', '.'], m)]);
                assert(v@.drop_last() == first);
                assert(total_blocks(v@) == total_blocks(first) + m.blocks);
            },
            None => {},
        }
    }
    assert(entry_views(v@) =~= dot_entries(c, all));
    assert(total_blocks(v@) + read_blocks(c.read@) <= contents_blocks(c));
    let ghost base = v@;
    let mut rest = read;
    let ghost raw = c.read@;
    let ghost mut i: int = 0;
    assert(raw.skip(0) == raw);
    while rest.len() > 0
        invariant
            0 <= i <= raw.len(),
            rest@ == raw.skip(i),
            raw == c.read@,
            entry_views(v@) == entry_views(base) + shown_entries(raw.take(i), all),
            entry_views(base) == dot_entries(c, all),
            total_blocks(v@) + read_blocks(raw) - read_blocks(raw.take(i)) <= contents_blocks(c),
        decreases rest@.len(),
    {
        proof {
            assert(raw.take(i + 1).drop_last() == raw.take(i));
            assert(raw.take(i + 1).last() == raw[i]);
            assert(rest@[0] == raw[i]);
        }
        let (name, meta) = rest.remove(0);
        let hide = {
            let cs = chars_of(name.as_str());
            cs.len() > 0 && cs[0] == '.'
        };
        if all || !hide {
            if let Some(m) = meta {
                let ghost before = v@;
                v.push(LsEntry { name, meta: m });
                proof {
                    assert(entry_views(v@) == entry_views(before).push((name@, m)));
                    assert(v@.drop_last() == before);
                }
            }
        }
        proof {
            i = i + 1;
            assert(rest@ =~= raw.skip(i));
        }
    }
    proof {
        assert(raw.skip(i).len() == 0);
        assert(raw.take(i) == raw);
    }
    v
}


/// Whether the blocks of everything in `contents` add up within a `u64`
/// (what a long listing of it needs).
pub fn blocks_fit(contents: &DirContents) -> (b: bool)
    ensures
        b == (contents_blocks(*contents) <= u64::MAX),
{
    let mut sum: u64 = 0;
    match &contents.dot {
        Some(m) => sum = m.blocks,
        None => {},
    }
    match &contents.dotdot {
        Some(m) => {
            if m.blocks > u64::MAX - sum {
                return false;
            }
            sum = sum + m.blocks;
        },
        None => {},
    }
    let ghost head = sum as nat;
    let mut i: usize = 0;
    while i < contents.read.len()
        invariant
            i <= contents.read@.len(),
            head + read_blocks(contents.read@) == contents_blocks(*contents),
            sum == head + read_blocks(contents.read@.take(i as int)),
        decreases contents.read@.len() - i,
    {
        let ghost raw = contents.read@;
        proof {
            assert(raw.take(i + 1).drop_last() == raw.take(i as int));
            assert(raw.take(i + 1).last() == raw[i as int]);
            lemma_read_blocks_prefix(raw, i + 1);
        }
        match &contents.read[i].1 {
            Some(m) => {
                if m.blocks > u64::MAX - sum {
                    return false;
                }
                sum = sum + m.blocks;
            },
            None => {},
        }
        i = i + 1;
    }
    assert(contents.read@.take(contents.read@.len() as int) == contents.read@);
    true
}

/// The blocks of a prefix of what was read never exceed those of the whole.
proof fn lemma_read_blocks_prefix(raw: Seq<(String, Option<EntryMeta>)>, i: int)
    requires
        0 <= i <= raw.len(),
    ensures
        read_blocks(raw.take(i)) <= read_blocks(raw),
    decreases raw.len() - i,
{
    if i < raw.len() {
        assert(raw.drop_last().take(i) == raw.take(i));
        lemma_read_blocks_prefix(raw.drop_last(), i);
    } else {
        assert(raw.take(i) == raw);
    }
}

/// What `ls` prints for a directory: the entries it shows (with `-a` also
/// `.` and `..` and hidden names), sorted by name (entries of equal names
/// keeping their order), in the short or long format.
pub fn list_directory(
    contents: DirContents,
    opts: &LsOptions,
    users: &IdTable,
    groups: &IdTable,
    layout: &DeviceLayout,
) -> (lines: Vec<String>)
    requires
        opts.long ==> contents_blocks(contents) <= u64::MAX,
    ensures
        exists|shown: Seq<LsEntry>, order: Seq<LsEntry>|
            {
                &&& #[trigger] entry_views(shown) == listed(contents, opts.all)
                &&& sorted_by_name(order)
                &&& #[trigger] order.to_multiset() == shown.to_multiset()
                &&& forall|k: Seq<char>| #[trigger] named(order, k) == named(shown, k)
                &&& views(lines@) == listing(
                    order,
                    opts.long,
                    opts.classify,
                    users@,
                    groups@,
                    *layout,
                )
            },
{
    let ghost c = contents;
    let shown = collect_entries(contents, opts.all);
    let ghost shown_seq = shown@;
    let order = sort_by_name(shown);
    let lines = render_entries(&order, opts, users, groups, layout);
    assert(entry_views(shown_seq) == listed(c, opts.all));
    assert(order@.to_multiset() == shown_seq.to_multiset());
    lines
}


/// Without `-a` a listing shows no hidden name (nor `.` and `..`); with it,
/// it shows `.` and `..` first and every entry whose metadata was read.
pub proof fn law_hidden_names_need_all(c: DirContents)
    ensures
        forall|i: int| 0 <= i < listed(c, false).len() ==> !hidden(#[trigger] listed(c, false)[i].0),
        listed(c, true) == dot_entries(c, true) + shown_entries(c.read@, true),
        shown_entries(c.read@, true).len() == read_count(c.read@),
{
    lemma_shown_hide(c.read@);
    lemma_shown_all(c.read@);
    assert(dot_entries(c, false) =~= Seq::<(Seq<char>, EntryMeta)>::empty());
    assert(listed(c, false) =~= shown_entries(c.read@, false));
}

/// How many entries read came with their metadata.
pub open spec fn read_count(read: Seq<(String, Option<EntryMeta>)>) -> nat
    decreases read.len(),
{
    if read.len() == 0 {
        0
    } else {
        read_count(read.drop_last()) + if read.last().1 is Some {
            1nat
        } else {
            0nat
        }
    }
}

proof fn lemma_shown_hide(read: Seq<(String, Option<EntryMeta>)>)
    ensures
        forall|i: int|
            0 <= i < shown_entries(read, false).len() ==> !hidden(
                #[trigger] shown_entries(read, false)[i].0,
            ),
    decreases read.len(),
{
    if read.len() > 0 {
        lemma_shown_hide(read.drop_last());
        let rest = shown_entries(read.drop_last(), false);
        let s = shown_entries(read, false);
        assert forall|i: int| 0 <= i < s.len() implies !hidden(#[trigger] s[i].0) by {
            if i < rest.len() {
                assert(s[i] == rest[i]);
            }
        }
    }
}

proof fn lemma_shown_all(read: Seq<(String, Option<EntryMeta>)>)
    ensures
        shown_entries(read, true).len() == read_count(read),
    decreases read.len(),
{
    if read.len() > 0 {
        lemma_shown_all(read.drop_last());
    }
}


/// In the long format the size column of a block device (type bits
/// `0o060000`) or a character device (`0o020000`) is its major and minor
/// numbers, `major, minor`, and that of any other file is its size in bytes.
pub proof fn law_devices_show_major_minor(m: EntryMeta, layout: DeviceLayout)
    ensures
        (m.mode & 0o170000) == 0o060000 || (m.mode & 0o170000) == 0o020000 ==> size_column(
            m,
            layout,
        ) == decimal(device_numbers(layout, m.rdev).0) + seq![',', ' '] + decimal(
            device_numbers(layout, m.rdev).1,
        ),
        !((m.mode & 0o170000) == 0o060000 || (m.mode & 0o170000) == 0o020000) ==> size_column(
            m,
            layout,
        ) == decimal(m.size as nat),
{
}


/// The long format shows a device made by `makedev(major, minor)` as
/// `major, minor`, on glibc for any numbers and on Darwin for a major below
/// 256 and a minor below 2^24.
pub proof fn law_device_column_shows_makedev_numbers(m: EntryMeta, major: u32, minor: u32)
    requires
        (m.mode & 0o170000) == 0o060000 || (m.mode & 0o170000) == 0o020000,
    ensures
        m.rdev == glibc_makedev(major, minor) ==> size_column(m, DeviceLayout::Glibc) == decimal(
            major as nat,
        ) + seq![',', ' '] + decimal(minor as nat),
        m.rdev == darwin_makedev(major, minor) && major < 0x100 && minor < 0x100_0000
            ==> size_column(m, DeviceLayout::Darwin) == decimal(major as nat) + seq![',', ' ']
            + decimal(minor as nat),
{
    law_glibc_device_round_trip(major, minor);
    if major < 0x100 && minor < 0x100_0000 {
        law_darwin_device_round_trip(major, minor);
    }
}

} // verus!
