use vstd::prelude::*;
use vstd::string::StrSliceExecFns;

verus! {

/// The characters `char::is_whitespace` accepts: the Unicode white-space
/// code points.
pub open spec fn spec_is_ws(c: char) -> bool {
    ||| c == '\u{0009}'
    ||| c == '\u{000A}'
    ||| c == '\u{000B}'
    ||| c == '\u{000C}'
    ||| c == '\u{000D}'
    ||| c == ' '
    ||| c == '\u{0085}'
    ||| c == '\u{00A0}'
    ||| c == '\u{1680}'
    ||| c == '\u{2000}'
    ||| c == '\u{2001}'
    ||| c == '\u{2002}'
    ||| c == '\u{2003}'
    ||| c == '\u{2004}'
    ||| c == '\u{2005}'
    ||| c == '\u{2006}'
    ||| c == '\u{2007}'
    ||| c == '\u{2008}'
    ||| c == '\u{2009}'
    ||| c == '\u{200A}'
    ||| c == '\u{2028}'
    ||| c == '\u{2029}'
    ||| c == '\u{202F}'
    ||| c == '\u{205F}'
    ||| c == '\u{3000}'
}

/// Whether a character separates fields of a mount-table record.
fn is_ws_char(c: char) -> (r: bool)
    ensures
        r == spec_is_ws(c),
{
    c == '\u{0009}' || c == '\u{000A}' || c == '\u{000B}' || c == '\u{000C}' || c == '\u{000D}'
        || c == ' ' || c == '\u{0085}' || c == '\u{00A0}' || c == '\u{1680}' || c == '\u{2000}'
        || c == '\u{2001}' || c == '\u{2002}' || c == '\u{2003}' || c == '\u{2004}'
        || c == '\u{2005}' || c == '\u{2006}' || c == '\u{2007}' || c == '\u{2008}'
        || c == '\u{2009}' || c == '\u{200A}' || c == '\u{2028}' || c == '\u{2029}'
        || c == '\u{202F}' || c == '\u{205F}' || c == '\u{3000}'
}

/// How many leading characters of `s` do not satisfy `stop`.
pub open spec fn spec_scan_len(s: Seq<char>, stop: spec_fn(char) -> bool) -> int
    decreases s.len(),
{
    if s.len() == 0 || stop(s[0]) {
        0
    } else {
        1 + spec_scan_len(s.drop_first(), stop)
    }
}

/// A position whose prefix avoids `stop` and that sits on a `stop`
/// character (or at the end) is exactly the scan length.
proof fn lemma_scan_len_char(s: Seq<char>, stop: spec_fn(char) -> bool, k: int)
    requires
        0 <= k <= s.len(),
        forall|i: int| 0 <= i < k ==> !stop(s[i]),
        k < s.len() ==> stop(s[k]),
    ensures
        spec_scan_len(s, stop) == k,
    decreases s.len(),
{
    if s.len() == 0 {
    } else if stop(s[0]) {
        assert(k == 0);
    } else {
        assert(k >= 1);
        lemma_scan_len_char(s.drop_first(), stop, k - 1);
    }
}

/// Stop test that halts a scan on the first non-white-space character.
pub open spec fn stop_non_ws() -> spec_fn(char) -> bool {
    |c: char| !spec_is_ws(c)
}

/// Stop test that halts a scan on the first white-space character.
pub open spec fn stop_ws() -> spec_fn(char) -> bool {
    |c: char| spec_is_ws(c)
}

/// Stop test that halts a scan on the first newline.
pub open spec fn stop_newline() -> spec_fn(char) -> bool {
    |c: char| c == '\n'
}

/// The number of leading white-space characters.
pub open spec fn spec_ws_len(s: Seq<char>) -> int {
    spec_scan_len(s, stop_non_ws())
}

/// The length of the leading run of non-white-space characters.
pub open spec fn spec_token_len(s: Seq<char>) -> int {
    spec_scan_len(s, stop_ws())
}

/// The number of characters before the first newline.
pub open spec fn spec_line_len(s: Seq<char>) -> int {
    spec_scan_len(s, stop_newline())
}

/// The scan length lies between zero and the sequence length.
proof fn lemma_scan_len_bounds(s: Seq<char>, stop: spec_fn(char) -> bool)
    ensures
        0 <= spec_scan_len(s, stop) <= s.len(),
    decreases s.len(),
{
    if s.len() != 0 && !stop(s[0]) {
        lemma_scan_len_bounds(s.drop_first(), stop);
    }
}

/// A line with its trailing carriage return removed, so that DOS line
/// endings do not leak into the last field.  (The carriage return is
/// white space to the field splitter anyway, so this only tidies the
/// line as a whole.)
pub open spec fn spec_strip_cr(line: Seq<char>) -> Seq<char> {
    if line.len() > 0 && line.last() == '\r' {
        line.drop_last()
    } else {
        line
    }
}

/// The lines of a text, split at newlines, the final line ending optional,
/// each line's trailing carriage return removed.
pub open spec fn spec_lines(s: Seq<char>) -> Seq<Seq<char>>
    decreases s.len(),
    via spec_lines_decreases
{
    if s.len() == 0 {
        Seq::empty()
    } else {
        let k = spec_line_len(s);
        let line = spec_strip_cr(s.take(k));
        if k == s.len() {
            seq![line]
        } else {
            seq![line] + spec_lines(s.skip(k + 1))
        }
    }
}

#[via_fn]
proof fn spec_lines_decreases(s: Seq<char>) {
    lemma_scan_len_bounds(s, stop_newline());
}

/// The second white-space-separated field of a line, when the line has at
/// least two fields.
pub open spec fn spec_second_field(line: Seq<char>) -> Option<Seq<char>> {
    let a = spec_ws_len(line);
    let b = a + spec_token_len(line.skip(a));
    let c = b + spec_ws_len(line.skip(b));
    let d = c + spec_token_len(line.skip(c));
    if d > c {
        Some(line.subrange(c, d))
    } else {
        None
    }
}

/// The set of mount paths a mount-table text describes: the second field
/// of every record that has one; malformed records contribute nothing.
pub open spec fn spec_mount_set(s: Seq<char>) -> Set<Seq<char>> {
    Set::new(
        |p: Seq<char>|
            exists|i: int|
                0 <= i < spec_lines(s).len() && spec_second_field(spec_lines(s)[i]) == Some(p),
    )
}

/// Walking one line forward: when `pos` is the start of a line whose
/// newline (or text end) sits at `line_end`, the line is the next entry of
/// `spec_lines`, and the text after the newline carries the remaining
/// lines.
proof fn lemma_lines_step(s: Seq<char>, pos: int, line_end: int, stripped_end: int, done: int)
    requires
        0 <= pos < s.len(),
        pos <= line_end <= s.len(),
        forall|k: int| pos <= k < line_end ==> s[k] != '\n',
        line_end < s.len() ==> s[line_end] == '\n',
        stripped_end == if line_end > pos && s[line_end - 1] == '\r' {
            line_end - 1
        } else {
            line_end
        },
        0 <= done <= spec_lines(s).len(),
        spec_lines(s.skip(pos)) == spec_lines(s).skip(done),
    ensures
        done < spec_lines(s).len(),
        spec_lines(s)[done] == s.subrange(pos, stripped_end),
        line_end < s.len() ==> spec_lines(s.skip(line_end + 1)) == spec_lines(s).skip(done + 1),
        line_end == s.len() ==> spec_lines(s).len() == done + 1,
{
    let rest = s.skip(pos);
    let linev = s.subrange(pos, stripped_end);
    lemma_scan_len_char(rest, stop_newline(), line_end - pos);
    assert(spec_strip_cr(rest.take(line_end - pos)) =~= linev);
    if line_end < s.len() {
        let tail = s.skip(line_end + 1);
        assert(rest.skip(line_end - pos + 1) =~= tail);
        assert(spec_lines(rest) =~= seq![linev] + spec_lines(tail));
        assert(spec_lines(s).skip(done).len() == spec_lines(s).len() - done);
        assert(done < spec_lines(s).len());
        assert(spec_lines(s).skip(done)[0] == spec_lines(s)[done]);
        assert(spec_lines(tail) =~= spec_lines(s).skip(done + 1)) by {
            let lhs = spec_lines(tail);
            let all = spec_lines(s);
            assert(all.skip(done).len() == all.len() - done);
            assert(all.skip(done + 1).len() == all.len() - done - 1);
            assert((seq![linev] + lhs).len() == all.skip(done).len());
            assert forall|i2: int| 0 <= i2 < lhs.len() implies lhs[i2] == all.skip(done + 1)[i2]
                by {
                assert((seq![linev] + lhs)[i2 + 1] == lhs[i2]);
                assert(all.skip(done)[i2 + 1] == all[done + i2 + 1]);
                assert(all.skip(done + 1)[i2] == all[done + 1 + i2]);
            }
        }
    } else {
        assert(spec_line_len(rest) == rest.len());
        assert(spec_lines(rest) =~= seq![linev]);
        assert(spec_lines(s).skip(done).len() == spec_lines(s).len() - done);
        assert(done < spec_lines(s).len());
        assert(spec_lines(s).skip(done)[0] == spec_lines(s)[done]);
    }
}

/// First position at or after `from`, up to `end`, whose character
/// satisfies the stop test; `end` when none does.
fn scan(s: &str, from: usize, end: usize, stop_on_ws: bool) -> (r: usize)
    requires
        from <= end,
        end as int <= s@.len(),
    ensures
        from <= r <= end,
        forall|k: int| from <= k < r ==> spec_is_ws(s@[k]) != stop_on_ws,
        r < end ==> spec_is_ws(s@[r as int]) == stop_on_ws,
{
    let mut i = from;
    while i < end
        invariant
            from <= i <= end,
            end as int <= s@.len(),
            forall|k: int| from <= k < i ==> spec_is_ws(s@[k]) != stop_on_ws,
        ensures
            from <= i <= end,
            forall|k: int| from <= k < i ==> spec_is_ws(s@[k]) != stop_on_ws,
            i < end ==> spec_is_ws(s@[i as int]) == stop_on_ws,
        decreases end - i,
    {
        if is_ws_char(s.get_char(i)) == stop_on_ws {
            break ;
        }
        i = i + 1;
    }
    i
}

/// First position at or after `from` that holds a newline; `end` when none
/// does.
fn scan_newline(s: &str, from: usize, end: usize) -> (r: usize)
    requires
        from <= end,
        end as int <= s@.len(),
    ensures
        from <= r <= end,
        forall|k: int| from <= k < r ==> s@[k] != '\n',
        r < end ==> s@[r as int] == '\n',
{
    let mut i = from;
    while i < end
        invariant
            from <= i <= end,
            end as int <= s@.len(),
            forall|k: int| from <= k < i ==> s@[k] != '\n',
        ensures
            from <= i <= end,
            forall|k: int| from <= k < i ==> s@[k] != '\n',
            i < end ==> s@[i as int] == '\n',
        decreases end - i,
    {
        if s.get_char(i) == '\n' {
            break ;
        }
        i = i + 1;
    }
    i
}

/// Whether two string slices hold the same characters.
pub(crate) fn str_eq(a: &str, b: &str) -> (r: bool)
    ensures
        r == (a@ == b@),
{
    let na = a.unicode_len();
    let nb = b.unicode_len();
    if na != nb {
        return false;
    }
    for i in 0..na
        invariant
            na as int == a@.len(),
            na as int == b@.len(),
            forall|k: int| 0 <= k < i ==> a@[k] == b@[k],
    {
        if a.get_char(i) != b.get_char(i) {
            return false;
        }
    }
    proof {
        assert(a@ =~= b@);
    }
    true
}

/// Whether some element of the vector has the same characters as `x`.
pub(crate) fn contains_string(v: &Vec<String>, x: &String) -> (r: bool)
    ensures
        r == exists|i: int| 0 <= i < v@.len() && v@[i]@ == x@,
{
    let n = v.len();
    for i in 0..n
        invariant
            n == v@.len(),
            forall|k: int| 0 <= k < i ==> v@[k]@ != x@,
    {
        if v[i] == *x {
            return true;
        }
    }
    false
}

/// The second field of one line of the text, located by character
/// positions inside the whole text.
fn second_field_of_line(s: &str, start: usize, stripped_end: usize) -> (r: Option<String>)
    requires
        start <= stripped_end,
        stripped_end as int <= s@.len(),
    ensures
        match r {
            Some(f) => spec_second_field(s@.subrange(start as int, stripped_end as int)) == Some(
                f@,
            ),
            None => spec_second_field(s@.subrange(start as int, stripped_end as int)) is None,
        },
{
    let ghost line = s@.subrange(start as int, stripped_end as int);
    let a = scan(s, start, stripped_end, false);
    let b = scan(s, a, stripped_end, true);
    let c = scan(s, b, stripped_end, false);
    let d = scan(s, c, stripped_end, true);
    proof {
        assert forall|i: int| 0 <= i < line.len() implies line[i] == s@[start + i] by {}
        lemma_scan_len_char(line, stop_non_ws(), a - start);
        lemma_scan_len_char(line.skip(a - start), stop_ws(), b - a);
        lemma_scan_len_char(line.skip(b - start), stop_non_ws(), c - b);
        lemma_scan_len_char(line.skip(c - start), stop_ws(), d - c);
    }
    if d > c {
        let f = s.substring_char(c, d);
        proof {
            assert(f@ =~= line.subrange(c - start, d - start));
        }
        Some(f.to_owned())
    } else {
        None
    }
}

/// Parses a mount-table text into the set of mounted paths: one record per
/// line, fields separated by white space, the path in the second field;
/// records without a second field are ignored.  The result lists each path
/// once.
#[verifier::rlimit(60)]
pub fn parse_mounts(mounts: &str) -> (r: Vec<String>)
    ensures
        forall|j: int| 0 <= j < r@.len() ==> spec_mount_set(mounts@).contains(#[trigger] r@[j]@),
        forall|p: Seq<char>|
            spec_mount_set(mounts@).contains(p) ==> exists|j: int|
                0 <= j < r@.len() && #[trigger] r@[j]@ == p,
        forall|j: int, k: int| 0 <= j < k < r@.len() ==> r@[j]@ != r@[k]@,
{
    let n = mounts.unicode_len();
    let mut res: Vec<String> = Vec::new();
    let mut pos: usize = 0;
    let ghost total = spec_lines(mounts@).len() as int;
    let ghost mut done: int = 0;

    proof {
        assert(mounts@.skip(0) =~= mounts@);
        assert(spec_lines(mounts@).skip(0) =~= spec_lines(mounts@));
    }

    while pos < n
        invariant
            pos <= n,
            n as int == mounts@.len(),
            0 <= done <= total,
            total == spec_lines(mounts@).len(),
            spec_lines(mounts@.skip(pos as int)) == spec_lines(mounts@).skip(done),
            pos == n ==> done == total,
            forall|j: int|
                #![trigger res@[j]]
                0 <= j < res@.len() ==> exists|i: int|
                    0 <= i < done && spec_second_field(#[trigger] spec_lines(mounts@)[i]) == Some(
                        res@[j]@,
                    ),
            forall|i: int|
                0 <= i < done && spec_second_field(#[trigger] spec_lines(mounts@)[i]) is Some
                    ==> exists|j: int|
                    0 <= j < res@.len() && #[trigger] res@[j]@ == spec_second_field(
                        spec_lines(mounts@)[i],
                    )->0,
            forall|j: int, k: int| 0 <= j < k < res@.len() ==> res@[j]@ != res@[k]@,
        decreases n - pos,
    {
        let line_end = scan_newline(mounts, pos, n);
        let stripped_end = if line_end > pos && mounts.get_char(line_end - 1) == '\r' {
            line_end - 1
        } else {
            line_end
        };

        let ghost prev_done = done;
        let ghost prev_res = res@;

        proof {
            lemma_lines_step(mounts@, pos as int, line_end as int, stripped_end as int, done);
        }

        let field = second_field_of_line(mounts, pos, stripped_end);
        let ghost fopt = match field {
            Some(ref f) => Some(f@),
            None => None::<Seq<char>>,
        };
        if let Some(f) = field {
            if !contains_string(&res, &f) {
                res.push(f);
            }
        }

        proof {
            done = prev_done + 1;
            assert(spec_second_field(spec_lines(mounts@)[prev_done]) == fopt);
            assert forall|j: int| #![trigger res@[j]] 0 <= j < res@.len() implies exists|i: int|
                0 <= i < done && spec_second_field(#[trigger] spec_lines(mounts@)[i]) == Some(
                    res@[j]@,
                ) by {
                if j < prev_res.len() {
                    assert(res@[j] == prev_res[j]);
                    let i0 = choose|i0: int|
                        0 <= i0 < prev_done && spec_second_field(
                            #[trigger] spec_lines(mounts@)[i0],
                        ) == Some(prev_res[j]@);
                    assert(spec_second_field(spec_lines(mounts@)[i0]) == Some(res@[j]@));
                } else {
                    assert(spec_second_field(spec_lines(mounts@)[prev_done]) == Some(res@[j]@));
                }
            }
            assert forall|i: int|
                0 <= i < done && spec_second_field(#[trigger] spec_lines(mounts@)[i])
                    is Some implies exists|j: int|
                0 <= j < res@.len() && #[trigger] res@[j]@ == spec_second_field(
                    spec_lines(mounts@)[i],
                )->0 by {
                let p = spec_second_field(spec_lines(mounts@)[i])->0;
                if i < prev_done {
                    let j0 = choose|j0: int|
                        0 <= j0 < prev_res.len() && #[trigger] prev_res[j0]@ == p;
                    assert(res@[j0]@ == p);
                } else {
                    if exists|j0: int| 0 <= j0 < prev_res.len() && #[trigger] prev_res[j0]@ == p {
                        let j0 = choose|j0: int|
                            0 <= j0 < prev_res.len() && #[trigger] prev_res[j0]@ == p;
                        assert(res@[j0]@ == p);
                    } else {
                        assert(res@[res@.len() - 1]@ == p);
                    }
                }
            }
        }

        if line_end < n {
            pos = line_end + 1;
        } else {
            pos = n;
        }

        proof {
            if pos == n && done < total {
                assert(mounts@.skip(pos as int) =~= Seq::<char>::empty());
                assert(spec_lines(mounts@).skip(done).len() == 0);
            }
        }
    }

    proof {
        assert forall|j: int| 0 <= j < res@.len() implies spec_mount_set(mounts@).contains(
            #[trigger] res@[j]@,
        ) by {}
        assert forall|p: Seq<char>| spec_mount_set(mounts@).contains(p) implies exists|j: int|
            0 <= j < res@.len() && #[trigger] res@[j]@ == p by {
            let i = choose|i: int|
                0 <= i < spec_lines(mounts@).len() && spec_second_field(
                    #[trigger] spec_lines(mounts@)[i],
                ) == Some(p);
            assert(spec_second_field(spec_lines(mounts@)[i]) is Some);
        }
    }
    res
}

} // verus!
