//! Parser for the device-list helper's output.
//!
//! The external helper prints three header lines, then one row per disk:
//! the label and the block-device path as the first two whitespace-
//! separated columns; rows with fewer than two columns and any further
//! columns are ignored.  The parser works on the raw output bytes: a line
//! ends at a newline, and a column break is a space, tab or carriage
//! return.
use vstd::prelude::*;

verus! {

/// The number of header lines the helper prints before the rows.
pub const AFD_HEADER_LINES: u32 = 3;

/// One row of the device map.
pub struct AfdEntry {
    pub label: Vec<u8>,
    pub path: Vec<u8>,
}

impl View for AfdEntry {
    type V = (Seq<u8>, Seq<u8>);

    open spec fn view(&self) -> (Seq<u8>, Seq<u8>) {
        (self.label@, self.path@)
    }
}

/// Whether a byte separates columns within a row.
pub open spec fn spec_is_space(b: u8) -> bool {
    b == 32 || b == 9 || b == 13
}

/// The index of the newline that ends the line starting at `i`, or the
/// length.
pub open spec fn spec_line_end(s: Seq<u8>, i: int) -> int
    decreases (if s.len() - i >= 0 { s.len() - i } else { 0 })
{
    if i < 0 || i >= s.len() {
        s.len() as int
    } else if s[i] == 10 {
        i
    } else {
        spec_line_end(s, i + 1)
    }
}

/// The first index in `[i, end)` holding a non-separator byte, or `end`.
pub open spec fn spec_skip_spaces(s: Seq<u8>, i: int, end: int) -> int
    decreases (if end - i >= 0 { end - i } else { 0 })
{
    if i < 0 || i >= end || i >= s.len() {
        end
    } else if spec_is_space(s[i]) {
        spec_skip_spaces(s, i + 1, end)
    } else {
        i
    }
}

/// The end of the column starting at `i`: the first separator at or after
/// it within the line, or `end`.
pub open spec fn spec_field_end(s: Seq<u8>, i: int, end: int) -> int
    decreases (if end - i >= 0 { end - i } else { 0 })
{
    if i < 0 || i >= end || i >= s.len() {
        end
    } else if spec_is_space(s[i]) {
        i
    } else {
        spec_field_end(s, i + 1, end)
    }
}

/// The row parsed from the line `[i, end)`: its first two columns, or
/// `None` where the line has fewer than two.
pub open spec fn spec_line_entry(s: Seq<u8>, i: int, end: int) -> Option<(Seq<u8>, Seq<u8>)> {
    let f0s = spec_skip_spaces(s, i, end);
    if f0s >= end {
        None
    } else {
        let f0e = spec_field_end(s, f0s, end);
        let f1s = spec_skip_spaces(s, f0e, end);
        if f1s >= end {
            None
        } else {
            let f1e = spec_field_end(s, f1s, end);
            Some((s.subrange(f0s, f0e), s.subrange(f1s, f1e)))
        }
    }
}

/// The rows parsed from the output from position `i` on, with `skip`
/// header lines still to pass over.
pub open spec fn spec_afd_map_from(s: Seq<u8>, i: int, skip: int) -> Seq<(Seq<u8>, Seq<u8>)>
    decreases (if s.len() + 1 - i >= 0 { s.len() + 1 - i } else { 0 })
{
    if i < 0 || i > s.len() {
        Seq::empty()
    } else {
        let e0 = spec_line_end(s, i);
        let e = if e0 < i {
            i
        } else {
            e0
        };
        let head = if skip > 0 {
            Seq::<(Seq<u8>, Seq<u8>)>::empty()
        } else {
            match spec_line_entry(s, i, e) {
                Some(p) => seq![p],
                None => Seq::empty(),
            }
        };
        let rest = if e >= s.len() {
            Seq::<(Seq<u8>, Seq<u8>)>::empty()
        } else {
            spec_afd_map_from(s, e + 1, if skip > 0 {
                skip - 1
            } else {
                0
            })
        };
        head + rest
    }
}

/// The device map parsed from the helper's whole output: three header
/// lines skipped, then the first two columns of every row that has them.
pub open spec fn spec_afd_map(s: Seq<u8>) -> Seq<(Seq<u8>, Seq<u8>)> {
    spec_afd_map_from(s, 0, AFD_HEADER_LINES as int)
}

/// Finds the end of the line starting at `from`.
fn line_end(s: &Vec<u8>, from: usize) -> (r: usize)
    requires
        from <= s@.len(),
    ensures
        r as int == spec_line_end(s@, from as int),
        from <= r <= s@.len(),
{
    let n = s.len();
    let mut i: usize = from;
    while i < n
        invariant
            n == s@.len(),
            from <= i <= n,
            spec_line_end(s@, from as int) == spec_line_end(s@, i as int),
        decreases n - i,
    {
        if s[i] == 10 {
            return i;
        }
        i = i + 1;
    }
    i
}

/// Skips the separators in `[from, end)`.
fn skip_spaces(s: &Vec<u8>, from: usize, end: usize) -> (r: usize)
    requires
        from <= end <= s@.len(),
    ensures
        r as int == spec_skip_spaces(s@, from as int, end as int),
        from <= r <= end,
{
    let mut i: usize = from;
    while i < end
        invariant
            end <= s@.len(),
            from <= i <= end,
            spec_skip_spaces(s@, from as int, end as int) == spec_skip_spaces(
                s@,
                i as int,
                end as int,
            ),
        decreases end - i,
    {
        let b = s[i];
        if !(b == 32 || b == 9 || b == 13) {
            return i;
        }
        i = i + 1;
    }
    i
}

/// Finds the end of the column starting at `from` within `[from, end)`.
fn field_end(s: &Vec<u8>, from: usize, end: usize) -> (r: usize)
    requires
        from <= end <= s@.len(),
    ensures
        r as int == spec_field_end(s@, from as int, end as int),
        from <= r <= end,
{
    let mut i: usize = from;
    while i < end
        invariant
            end <= s@.len(),
            from <= i <= end,
            spec_field_end(s@, from as int, end as int) == spec_field_end(
                s@,
                i as int,
                end as int,
            ),
        decreases end - i,
    {
        let b = s[i];
        if b == 32 || b == 9 || b == 13 {
            return i;
        }
        i = i + 1;
    }
    i
}

/// Copies the bytes `[from, to)`.
fn copy_range(s: &Vec<u8>, from: usize, to: usize) -> (r: Vec<u8>)
    requires
        from <= to <= s@.len(),
    ensures
        r@ == s@.subrange(from as int, to as int),
{
    let mut r: Vec<u8> = Vec::new();
    let mut i: usize = from;
    while i < to
        invariant
            from <= i <= to <= s@.len(),
            r@ == s@.subrange(from as int, i as int),
        decreases to - i,
    {
        r.push(s[i]);
        proof {
            assert(r@ =~= s@.subrange(from as int, i as int + 1));
        }
        i = i + 1;
    }
    r
}

/// Parses the device map from the helper's output bytes: the label and
/// block-device path of every row after the three header lines.
pub fn get_afd_map(output: &Vec<u8>) -> (r: Vec<AfdEntry>)
    requires
        output@.len() < usize::MAX,
    ensures
        r@.map_values(|e: AfdEntry| e@) == spec_afd_map(output@),
{
    let n = output.len();
    let mut r: Vec<AfdEntry> = Vec::new();
    let mut skip: u32 = AFD_HEADER_LINES;
    let mut i: usize = 0;
    proof {
        assert(r@.map_values(|e: AfdEntry| e@) =~= Seq::<(Seq<u8>, Seq<u8>)>::empty());
        assert(Seq::<(Seq<u8>, Seq<u8>)>::empty() + spec_afd_map_from(output@, 0, 3)
            =~= spec_afd_map_from(output@, 0, 3));
    }
    while i <= n
        invariant
            n == output@.len(),
            n < usize::MAX,
            i <= n + 1,
            spec_afd_map(output@) == r@.map_values(|e: AfdEntry| e@) + spec_afd_map_from(
                output@,
                i as int,
                skip as int,
            ),
        decreases n + 1 - i,
    {
        let ghost pre = r@.map_values(|e: AfdEntry| e@);
        let e = line_end(output, i);
        if skip > 0 {
            skip = skip - 1;
        } else {
            let f0s = skip_spaces(output, i, e);
            if f0s < e {
                let f0e = field_end(output, f0s, e);
                let f1s = skip_spaces(output, f0e, e);
                if f1s < e {
                    let f1e = field_end(output, f1s, e);
                    let label = copy_range(output, f0s, f0e);
                    let path = copy_range(output, f1s, f1e);
                    let ghost entry = (label@, path@);
                    r.push(AfdEntry { label, path });
                    proof {
                        assert(r@.map_values(|e2: AfdEntry| e2@) =~= pre + seq![entry]);
                        assert((pre + seq![entry]) + spec_afd_map_from(
                            output@,
                            e as int + 1,
                            0,
                        ) =~= pre + (seq![entry] + spec_afd_map_from(output@, e as int + 1, 0)));
                        assert((pre + seq![entry]) + Seq::<(Seq<u8>, Seq<u8>)>::empty() =~= pre + (
                        seq![entry] + Seq::<(Seq<u8>, Seq<u8>)>::empty()));
                    }
                }
            }
        }
        if e >= n {
            proof {
                assert(pre + Seq::<(Seq<u8>, Seq<u8>)>::empty() =~= pre);
            }
            i = n + 1;
        } else {
            i = e + 1;
        }
    }
    r
}

} // verus!
