//! Reading the `pci.ids` hardware database.
//!
//! Linux reports a GPU as a pair of 16-bit numbers. Turning `10de:2684` into `"GeForce RTX 4090"` needs the
//! `pci.ids` database that distributions ship, a plain text file whose format is indentation-significant: a vendor
//! sits at column zero, its devices are indented by one tab, and a device's subsystem variants by two.

use vstd::prelude::*;

use crate::text::{
    chars_of, copy_range, parse_unsigned, parse_unsigned_chars, starts_with, string_of, trim, trim_bounds,
};

verus! {

/// The names `pci.ids` records for one device.
#[derive(Debug, Clone, PartialEq, Eq)]
pub struct PciNames {
    /// The vendor's name as the database spells it, e.g. `"Advanced Micro Devices, Inc. [AMD/ATI]"`.
    pub vendor: Option<String>,
    /// The device's name, e.g. `"GA102 [GeForce RTX 3090]"`.
    pub device: Option<String>,
}

impl Default for PciNames {
    fn default() -> (r: Self)
        ensures
            r.vendor is None,
            r.device is None,
    {
        PciNames { vendor: None, device: None }
    }
}

/// The names found so far by a lookup: the vendor's, then the device's.
pub type Found = (Option<Seq<char>>, Option<Seq<char>>);

impl PciNames {
    /// The names this holds, as text.
    pub open spec fn found(self) -> Found {
        (
            match self.vendor {
                Some(v) => Some(v@),
                None => None,
            },
            match self.device {
                Some(d) => Some(d@),
                None => None,
            },
        )
    }
}

/// Where the line starting at `from` ends: the index of the next `'\n'`, or the end of the text.
pub open spec fn newline_from(s: Seq<char>, from: int) -> int
    decreases s.len() - from,
{
    if from >= s.len() {
        s.len() as int
    } else if s[from] == '\n' {
        from
    } else {
        newline_from(s, from + 1)
    }
}

/// The line starting at `from`, as `str::lines` yields it: without its `'\n'`, and without the `'\r'` before one.
pub open spec fn line_at(s: Seq<char>, from: int) -> Seq<char> {
    let end = newline_from(s, from);
    let line = s.subrange(from, end);
    if end < s.len() && line.len() > 0 && line.last() == '\r' {
        line.drop_last()
    } else {
        line
    }
}

/// Where the first run of two spaces in `e` starts, searching from `from`, or `-1` if there is none.
pub open spec fn double_space_from(e: Seq<char>, from: int) -> int
    decreases e.len() - from,
{
    if from < 0 || from + 1 >= e.len() {
        -1
    } else if e[from] == ' ' && e[from + 1] == ' ' {
        from
    } else {
        double_space_from(e, from + 1)
    }
}

/// An entry line of the database: four hex digits, two spaces, then a name that is not blank.
pub open spec fn entry(e: Seq<char>) -> Option<(nat, Seq<char>)> {
    let k = double_space_from(e, 0);
    if k < 0 {
        None
    } else {
        match parse_unsigned(trim(e.subrange(0, k)), 16, 0xffff) {
            None => None,
            Some(id) => {
                let name = trim(e.subrange(k + 2, e.len() as int));
                if name.len() == 0 {
                    None
                } else {
                    Some((id, name))
                }
            },
        }
    }
}

/// The lookup of `vendor:device` in the database text `s`, from the line starting at `from` onward, given whether
/// the vendor's block has been entered and what has been found.
///
/// Comments and blank lines are skipped. The class database that forms the file's second half, whose lines start
/// with `C `, ends the lookup, as does the next vendor once the target vendor's block has been entered. Subsystem
/// lines are skipped, and a device line is a match only inside the target vendor's block.
pub open spec fn lookup_from(s: Seq<char>, from: int, vendor: u16, device: u16, in_vendor: bool, found: Found) -> Found
    decreases s.len() - from,
{
    if from < 0 || from >= s.len() {
        found
    } else {
        proof {
            lemma_newline_bounds(s, from);
        }
        let end = newline_from(s, from);
        let next = if end < s.len() {
            end + 1
        } else {
            s.len() as int
        };
        let line = line_at(s, from);
        if line.len() == 0 || starts_with(line, "#"@) {
            lookup_from(s, next, vendor, device, in_vendor, found)
        } else if starts_with(line, "C "@) {
            found
        } else if starts_with(line, "\t\t"@) {
            lookup_from(s, next, vendor, device, in_vendor, found)
        } else if starts_with(line, "\t"@) {
            if !in_vendor {
                lookup_from(s, next, vendor, device, in_vendor, found)
            } else {
                match entry(line.drop_first()) {
                    Some((id, name)) => if id == device {
                        (found.0, Some(name))
                    } else {
                        lookup_from(s, next, vendor, device, in_vendor, found)
                    },
                    None => lookup_from(s, next, vendor, device, in_vendor, found),
                }
            }
        } else if in_vendor {
            found
        } else {
            match entry(line) {
                Some((id, name)) => if id == vendor {
                    lookup_from(s, next, vendor, device, true, (Some(name), found.1))
                } else {
                    lookup_from(s, next, vendor, device, in_vendor, found)
                },
                None => lookup_from(s, next, vendor, device, in_vendor, found),
            }
        }
    }
}

/// What the database `s` records for `vendor:device`.
pub open spec fn pci_lookup(s: Seq<char>, vendor: u16, device: u16) -> Found {
    lookup_from(s, 0, vendor, device, false, (None, None))
}

/// The line starting at `from` ends no earlier than it starts, and within the text.
pub proof fn lemma_newline_bounds(s: Seq<char>, from: int)
    requires
        0 <= from <= s.len(),
    ensures
        from <= newline_from(s, from) <= s.len(),
    decreases s.len() - from,
{
    if from < s.len() && s[from] != '\n' {
        lemma_newline_bounds(s, from + 1);
    }
}

/// Scanning forward over characters that are not newlines leaves the end of the line where it was.
proof fn lemma_newline_skip(s: Seq<char>, from: int, j: int)
    requires
        0 <= from <= j <= s.len(),
        forall|k: int| from <= k < j ==> s[k] != '\n',
    ensures
        newline_from(s, from) == newline_from(s, j),
    decreases j - from,
{
    if from < j {
        lemma_newline_skip(s, from + 1, j);
    }
}

/// The end of the line that starts at `from`.
fn find_newline(s: &[char], from: usize) -> (e: usize)
    requires
        from <= s@.len(),
    ensures
        e as int == newline_from(s@, from as int),
        from <= e <= s@.len(),
{
    let mut e = from;
    while e < s.len() && s[e] != '\n'
        invariant
            from <= e <= s@.len(),
            forall|k: int| from <= k < e ==> s@[k] != '\n',
        decreases s@.len() - e,
    {
        e += 1;
    }
    proof {
        lemma_newline_skip(s@, from as int, e as int);
    }
    e
}

/// Skipping a run of non-space pairs leaves the first double space where it was.
proof fn lemma_double_space_skip(e: Seq<char>, from: int, j: int)
    requires
        0 <= from <= j,
        j + 1 <= e.len() || j == from,
        forall|k: int| from <= k < j ==> !(#[trigger] e[k] == ' ' && e[k + 1] == ' '),
    ensures
        double_space_from(e, from) == double_space_from(e, j),
    decreases j - from,
{
    if from < j {
        lemma_double_space_skip(e, from + 1, j);
    }
}

/// Splits an entry into its hex id and its name, as [`entry`] describes.
pub fn split_entry(e: &[char]) -> (r: Option<(u16, Vec<char>)>)
    ensures
        r matches Some((id, name)) ==> entry(e@) == Some((id as nat, name@)),
        r is None ==> entry(e@) is None,
{
    let n = e.len();
    let mut k: usize = 0;
    while k + 1 < n && !(e[k] == ' ' && e[k + 1] == ' ')
        invariant
            n == e@.len(),
            k + 1 <= n || k == 0,
            forall|m: int| 0 <= m < k ==> !(#[trigger] e@[m] == ' ' && e@[m + 1] == ' '),
        decreases n - k,
    {
        k += 1;
    }
    proof {
        lemma_double_space_skip(e@, 0, k as int);
    }
    if k + 1 >= n {
        return None;
    }
    let id_chars = copy_range(e, 0, k);
    let (a, b) = trim_bounds(&id_chars);
    let id_trimmed = copy_range(&id_chars, a, b);
    let id = match parse_unsigned_chars(&id_trimmed, 16, 0xffff) {
        Some(v) => v,
        None => {
            return None;
        },
    };
    let rest = copy_range(e, k + 2, n);
    let (c, d) = trim_bounds(&rest);
    if c == d {
        return None;
    }
    let name = copy_range(&rest, c, d);
    Some((id as u16, name))
}

/// Looks `vendor:device` up in the text of a `pci.ids` database.
///
/// A device line is a match only while the enclosing vendor is the one being looked for, subsystem lines are
/// skipped, and the scan stops at the class database that follows the vendor list.
pub fn lookup_pci_ids(contents: &str, vendor: u16, device: u16) -> (names: PciNames)
    ensures
        names.found() == pci_lookup(contents@, vendor, device),
{
    let s = chars_of(contents);
    lookup_pci_ids_chars(&s, vendor, device)
}

/// [`lookup_pci_ids`], on the characters of the database.
pub fn lookup_pci_ids_chars(s: &[char], vendor: u16, device: u16) -> (names: PciNames)
    ensures
        names.found() == pci_lookup(s@, vendor, device),
{
    let mut names = PciNames { vendor: None, device: None };
    let mut in_vendor = false;
    let mut pos: usize = 0;
    let hash = chars_of("#");
    let class = chars_of("C ");
    let two_tabs = chars_of("\t\t");
    let one_tab = chars_of("\t");
    while pos < s.len()
        invariant
            pos <= s@.len(),
            hash@ == "#"@,
            class@ == "C "@,
            two_tabs@ == "\t\t"@,
            one_tab@ == "\t"@,
            pci_lookup(s@, vendor, device) == lookup_from(s@, pos as int, vendor, device, in_vendor, names.found()),
        decreases s@.len() - pos,
    {
        let end = find_newline(s, pos);
        let mut line_end = end;
        if end < s.len() && end > pos && s[end - 1] == '\r' {
            line_end = end - 1;
        }
        let line = copy_range(s, pos, line_end);
        assert(line@ =~= line_at(s@, pos as int));
        let ghost found = names.found();
        let next = if end < s.len() {
            end + 1
        } else {
            s.len()
        };
        if line.len() == 0 || crate::text::matches_at(&line, &hash, 0) {
            pos = next;
        } else if crate::text::matches_at(&line, &class, 0) {
            return names;
        } else if crate::text::matches_at(&line, &two_tabs, 0) {
            pos = next;
        } else if crate::text::matches_at(&line, &one_tab, 0) {
            if !in_vendor {
                pos = next;
            } else {
                let body = copy_range(&line, 1, line.len());
                assert(body@ =~= line@.drop_first());
                match split_entry(&body) {
                    Some((id, name)) => {
                        if id == device {
                            names.device = Some(string_of(&name));
                            assert(names.found() == (found.0, Some(name@)));
                            return names;
                        }
                        pos = next;
                    },
                    None => {
                        pos = next;
                    },
                }
            }
        } else if in_vendor {
            return names;
        } else {
            match split_entry(&line) {
                Some((id, name)) => {
                    if id == vendor {
                        names.vendor = Some(string_of(&name));
                        in_vendor = true;
                    }
                    pos = next;
                },
                None => {
                    pos = next;
                },
            }
        }
    }
    names
}

/// The lines of `s` from the one starting at `from` onward, as `str::lines` yields them.
pub open spec fn lines_from(s: Seq<char>, from: int) -> Seq<Seq<char>>
    decreases s.len() - from,
{
    if from < 0 || from >= s.len() {
        Seq::empty()
    } else {
        proof {
            lemma_newline_bounds(s, from);
        }
        let end = newline_from(s, from);
        let next = if end < s.len() {
            end + 1
        } else {
            s.len() as int
        };
        seq![line_at(s, from)] + lines_from(s, next)
    }
}

/// The lines of the database text `s`.
pub open spec fn pci_lines(s: Seq<char>) -> Seq<Seq<char>> {
    lines_from(s, 0)
}

/// A line the lookup passes over: blank, or a comment.
pub open spec fn skipped_line(l: Seq<char>) -> bool {
    l.len() == 0 || starts_with(l, "#"@)
}

/// A line of the class database that forms the file's second half.
pub open spec fn class_line(l: Seq<char>) -> bool {
    !skipped_line(l) && starts_with(l, "C "@)
}

/// A vendor line naming `vendor`: at column zero, neither blank nor a comment nor a class line, and an entry whose id
/// is `vendor`.
pub open spec fn vendor_line(l: Seq<char>, vendor: u16) -> bool {
    &&& !skipped_line(l)
    &&& !starts_with(l, "C "@)
    &&& !starts_with(l, "\t"@)
    &&& entry(l) matches Some((id, _)) && id == vendor
}

/// A device line naming `device`: indented by exactly one tab, then an entry whose id is `device`.
pub open spec fn device_line(l: Seq<char>, device: u16) -> bool {
    &&& !skipped_line(l)
    &&& starts_with(l, "\t"@)
    &&& !starts_with(l, "\t\t"@)
    &&& entry(l.drop_first()) matches Some((id, _)) && id == device
}

/// A line that closes a vendor's block: the class database, or another line at column zero.
pub open spec fn closes_block(l: Seq<char>) -> bool {
    !skipped_line(l) && (starts_with(l, "C "@) || !starts_with(l, "\t"@))
}

/// Line `v` of `lines` is the first vendor line naming `vendor`, and no class line comes before it.
pub open spec fn vendor_found_at(lines: Seq<Seq<char>>, vendor: u16, v: int) -> bool {
    &&& 0 <= v < lines.len()
    &&& vendor_line(lines[v], vendor)
    &&& forall|k: int| 0 <= k < v ==> !class_line(#[trigger] lines[k]) && !vendor_line(lines[k], vendor)
}

/// Line `d` of `lines`, which come after a vendor line, is the first device line naming `device` before anything
/// closes the vendor's block.
pub open spec fn device_found_at(lines: Seq<Seq<char>>, device: u16, d: int) -> bool {
    &&& 0 <= d < lines.len()
    &&& device_line(lines[d], device)
    &&& forall|k: int| 0 <= k < d ==> !closes_block(#[trigger] lines[k]) && !device_line(lines[k], device)
}

/// The name an entry line records.
pub open spec fn entry_name(l: Seq<char>) -> Seq<char> {
    match entry(l) {
        Some((_, name)) => name,
        None => Seq::empty(),
    }
}

/// How the prefixes the lookup tests relate: two tabs are also one tab, and a comment or a class line does not start
/// with a tab.
proof fn lemma_prefixes(l: Seq<char>)
    ensures
        starts_with(l, "\t\t"@) ==> starts_with(l, "\t"@),
        starts_with(l, "C "@) ==> !starts_with(l, "\t"@),
        starts_with(l, "#"@) ==> !starts_with(l, "\t"@),
{
    reveal_strlit("\t\t");
    reveal_strlit("\t");
    reveal_strlit("C ");
    reveal_strlit("#");
    if starts_with(l, "\t\t"@) {
        assert(l.subrange(0, 2)[0] == l[0]);
        assert("\t\t"@[0] == '\t');
        assert(l.subrange(0, 1) =~= "\t"@);
    }
    if starts_with(l, "C "@) {
        assert(l.subrange(0, 2)[0] == l[0]);
        if starts_with(l, "\t"@) {
            assert(l.subrange(0, 1)[0] == l[0]);
        }
    }
    if starts_with(l, "#"@) {
        assert(l.subrange(0, 1)[0] == l[0]);
        if starts_with(l, "\t"@) {
            assert(l.subrange(0, 1)[0] == l[0]);
        }
    }
}

/// The first line of the lines from `from` is the line at `from`, and the others are the lines from the next one.
proof fn lemma_lines_step(s: Seq<char>, from: int)
    requires
        0 <= from < s.len(),
    ensures
        ({
            let end = newline_from(s, from);
            let next = if end < s.len() {
                end + 1
            } else {
                s.len() as int
            };
            &&& lines_from(s, from).len() > 0
            &&& lines_from(s, from)[0] == line_at(s, from)
            &&& lines_from(s, from).drop_first() == lines_from(s, next)
            &&& from < next
        }),
{
    lemma_newline_bounds(s, from);
    let end = newline_from(s, from);
    let next = if end < s.len() {
        end + 1
    } else {
        s.len() as int
    };
    assert((seq![line_at(s, from)] + lines_from(s, next)).drop_first() =~= lines_from(s, next));
}

/// Inside the target vendor's block, the lookup reports the first device line naming `device` before the block
/// closes, and no device when there is none.
proof fn lemma_lookup_in_block(s: Seq<char>, from: int, vendor: u16, device: u16, name: Option<Seq<char>>)
    requires
        0 <= from,
    ensures
        lookup_from(s, from, vendor, device, true, (name, None)).0 == name,
        forall|d: int|
            device_found_at(lines_from(s, from), device, d) ==> lookup_from(s, from, vendor, device, true, (name, None)).1
                == Some(entry_name(lines_from(s, from)[d].drop_first())),
        (forall|d: int| !device_found_at(lines_from(s, from), device, d)) ==> lookup_from(
            s,
            from,
            vendor,
            device,
            true,
            (name, None),
        ).1 is None,
    decreases s.len() - from,
{
    let lines = lines_from(s, from);
    if from < s.len() {
        lemma_lines_step(s, from);
        let end = newline_from(s, from);
        let next = if end < s.len() {
            end + 1
        } else {
            s.len() as int
        };
        let line = line_at(s, from);
        let rest = lines_from(s, next);
        lemma_prefixes(line);
        lemma_lookup_in_block(s, next, vendor, device, name);
        assert forall|k: int| 0 <= k < rest.len() implies #[trigger] rest[k] == lines[k + 1] by {}
        let passes = !closes_block(line) && !device_line(line, device);
        if passes {
            assert forall|d: int| device_found_at(lines, device, d) implies d >= 1 && device_found_at(
                rest,
                device,
                d - 1,
            ) by {
                assert forall|k: int| 0 <= k < d - 1 implies !closes_block(#[trigger] rest[k]) && !device_line(
                    rest[k],
                    device,
                ) by {
                    assert(rest[k] == lines[k + 1]);
                }
            }
            assert forall|d: int| device_found_at(rest, device, d) implies device_found_at(lines, device, d + 1) by {
                assert forall|k: int| 0 <= k < d + 1 implies !closes_block(#[trigger] lines[k]) && !device_line(
                    lines[k],
                    device,
                ) by {
                    if k > 0 {
                        assert(lines[k] == rest[k - 1]);
                    }
                }
            }
            if forall|d: int| !device_found_at(lines, device, d) {
                assert forall|d: int| !device_found_at(rest, device, d) by {
                    if device_found_at(rest, device, d) {
                        assert(device_found_at(lines, device, d + 1));
                    }
                }
            }
        } else {
            assert(device_line(line, device) ==> device_found_at(lines, device, 0));
            assert forall|d: int| device_found_at(lines, device, d) implies d == 0 by {
                if d > 0 {
                    assert(!closes_block(lines[0]) && !device_line(lines[0], device));
                }
            }
        }
    }
}

/// Before the target vendor's block, the lookup finds the first vendor line naming `vendor` ahead of the class
/// database, then what [`lemma_lookup_in_block`] finds after it; with no such line it finds nothing.
proof fn lemma_lookup_before_block(s: Seq<char>, from: int, vendor: u16, device: u16)
    requires
        0 <= from,
    ensures
        forall|v: int|
            vendor_found_at(lines_from(s, from), vendor, v) ==> exists|next: int|
                #![trigger lines_from(s, next)]
                0 <= next && lines_from(s, next) == lines_from(s, from).skip(v + 1) && lookup_from(
                    s,
                    from,
                    vendor,
                    device,
                    false,
                    (None, None),
                ) == lookup_from(s, next, vendor, device, true, (Some(entry_name(lines_from(s, from)[v])), None)),
        (forall|v: int| !vendor_found_at(lines_from(s, from), vendor, v)) ==> lookup_from(
            s,
            from,
            vendor,
            device,
            false,
            (None, None),
        ) == (None::<Seq<char>>, None::<Seq<char>>),
    decreases s.len() - from,
{
    let lines = lines_from(s, from);
    if from < s.len() {
        lemma_lines_step(s, from);
        let end = newline_from(s, from);
        let next = if end < s.len() {
            end + 1
        } else {
            s.len() as int
        };
        let line = line_at(s, from);
        let rest = lines_from(s, next);
        lemma_prefixes(line);
        lemma_lookup_before_block(s, next, vendor, device);
        assert forall|k: int| 0 <= k < rest.len() implies #[trigger] rest[k] == lines[k + 1] by {}
        if vendor_line(line, vendor) {
            assert(vendor_found_at(lines, vendor, 0));
            assert(lines.skip(1) =~= rest);
            assert forall|v: int| vendor_found_at(lines, vendor, v) implies v == 0 by {
                if v > 0 {
                    assert(!vendor_line(lines[0], vendor));
                }
            }
        } else if class_line(line) {
            assert forall|v: int| !vendor_found_at(lines, vendor, v) by {
                if vendor_found_at(lines, vendor, v) && v > 0 {
                    assert(!class_line(lines[0]));
                }
            }
        } else {
            assert forall|v: int| vendor_found_at(lines, vendor, v) implies v >= 1 && vendor_found_at(
                rest,
                vendor,
                v - 1,
            ) by {
                assert forall|k: int| 0 <= k < v - 1 implies !class_line(#[trigger] rest[k]) && !vendor_line(
                    rest[k],
                    vendor,
                ) by {
                    assert(rest[k] == lines[k + 1]);
                }
            }
            assert forall|v: int| vendor_found_at(lines, vendor, v) implies exists|n: int|
                #![trigger lines_from(s, n)]
                0 <= n && lines_from(s, n) == lines.skip(v + 1) && lookup_from(s, from, vendor, device, false, (None, None))
                    == lookup_from(s, n, vendor, device, true, (Some(entry_name(lines[v])), None)) by {
                assert(vendor_found_at(rest, vendor, v - 1));
                assert(rest[v - 1] == lines[v]);
                assert(rest.skip(v) =~= lines.skip(v + 1));
            }
            if forall|v: int| !vendor_found_at(lines, vendor, v) {
                assert forall|v: int| !vendor_found_at(rest, vendor, v) by {
                    if vendor_found_at(rest, vendor, v) {
                        assert forall|k: int| 0 <= k < v + 1 implies !class_line(#[trigger] lines[k]) && !vendor_line(
                            lines[k],
                            vendor,
                        ) by {
                            if k > 0 {
                                assert(lines[k] == rest[k - 1]);
                            }
                        }
                        assert(vendor_found_at(lines, vendor, v + 1));
                    }
                }
            }
        }
    }
}

/// What a lookup reports, said line by line of the database: the vendor's name is the one on the first vendor line
/// naming `vendor` that comes before the class database, and there is none without such a line; the device's name
/// is the one on the first line after it indented by exactly one tab that names `device`, before the next line at
/// column zero or the class database, and there is none without such a line. Blank lines and comments are passed
/// over, and lines indented by two tabs never match.
pub proof fn a_lookup_reads_the_vendor_block(s: Seq<char>, vendor: u16, device: u16)
    ensures
        (forall|v: int| !vendor_found_at(pci_lines(s), vendor, v)) ==> pci_lookup(s, vendor, device) == (
        None::<Seq<char>>,
        None::<Seq<char>>,
        ),
        forall|v: int|
            vendor_found_at(pci_lines(s), vendor, v) ==> {
                let after = pci_lines(s).skip(v + 1);
                &&& pci_lookup(s, vendor, device).0 == Some(entry_name(pci_lines(s)[v]))
                &&& forall|d: int|
                    device_found_at(after, device, d) ==> pci_lookup(s, vendor, device).1 == Some(
                        entry_name(after[d].drop_first()),
                    )
                &&& (forall|d: int| !device_found_at(after, device, d)) ==> pci_lookup(s, vendor, device).1 is None
            },
{
    lemma_lookup_before_block(s, 0, vendor, device);
    if forall|v: int| !vendor_found_at(pci_lines(s), vendor, v) {
        assert forall|v: int| !vendor_found_at(lines_from(s, 0), vendor, v) by {
            assert(pci_lines(s) == lines_from(s, 0));
        }
    }
    assert forall|v: int| vendor_found_at(pci_lines(s), vendor, v) implies {
        let after = pci_lines(s).skip(v + 1);
        &&& pci_lookup(s, vendor, device).0 == Some(entry_name(pci_lines(s)[v]))
        &&& forall|d: int|
            device_found_at(after, device, d) ==> pci_lookup(s, vendor, device).1 == Some(
                entry_name(after[d].drop_first()),
            )
        &&& (forall|d: int| !device_found_at(after, device, d)) ==> pci_lookup(s, vendor, device).1 is None
    } by {
        let n = choose|n: int|
            #![trigger lines_from(s, n)]
            0 <= n && lines_from(s, n) == lines_from(s, 0).skip(v + 1) && lookup_from(s, 0, vendor, device, false, (None, None))
                == lookup_from(s, n, vendor, device, true, (Some(entry_name(lines_from(s, 0)[v])), None));
        lemma_lookup_in_block(s, n, vendor, device, Some(entry_name(pci_lines(s)[v])));
    }
}

} // verus!
