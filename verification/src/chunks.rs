//! Splitting a long text into chunks along its lines, for presentation
//! surfaces that cap how much one block may hold. Lines are split as
//! `str::lines` splits them; each line is re-terminated with a newline and
//! packed greedily: when adding a line would push the chunk past the bound,
//! the chunk is closed first, and a line over the bound lands in a chunk of
//! its own. Sizes are counted in characters.

use vstd::prelude::*;
use vstd::string::{StrSliceExecFns, StringExecFns};

verus! {

/// The index of the first newline in `s`, or its length when there is none.
pub open spec fn first_nl(s: Seq<char>) -> nat
    decreases s.len(),
{
    if s.len() == 0 {
        0
    } else if s[0] == '\n' {
        0
    } else {
        1 + first_nl(s.drop_first())
    }
}

proof fn lemma_first_nl(s: Seq<char>, k: int)
    requires
        0 <= k <= s.len(),
        forall|j: int| 0 <= j < k ==> s[j] != '\n',
        k < s.len() ==> s[k] == '\n',
    ensures
        first_nl(s) == k,
    decreases k,
{
    if k > 0 {
        lemma_first_nl(s.drop_first(), k - 1);
    }
}

/// One line without its terminator: a carriage return right before the
/// newline goes too.
pub open spec fn strip_cr(line: Seq<char>) -> Seq<char> {
    if line.len() > 0 && line.last() == '\r' {
        line.drop_last()
    } else {
        line
    }
}

/// The lines of a text, as `str::lines` yields them: split at each newline,
/// a carriage return before a newline stripped, the final line (with no
/// terminator) kept whole, and none after a trailing newline.
pub open spec fn spec_lines(s: Seq<char>) -> Seq<Seq<char>>
    decreases s.len(),
{
    if s.len() == 0 {
        Seq::empty()
    } else {
        let k = first_nl(s);
        if k >= s.len() {
            seq![s]
        } else {
            seq![strip_cr(s.take(k as int))] + spec_lines(s.skip(k as int + 1))
        }
    }
}

/// The greedy packing of the lines from index `i` on, continuing a chunk of
/// `size` characters: each line is re-terminated with a newline; a line that
/// would push the chunk past `max` closes it first (even empty); whatever
/// remains open at the end is kept only if it holds anything.
pub open spec fn spec_pack_from(
    lines: Seq<Seq<char>>,
    i: int,
    done: Seq<Seq<char>>,
    cur: Seq<char>,
    size: nat,
    max: nat,
) -> Seq<Seq<char>>
    decreases lines.len() - i,
{
    if i < 0 || i >= lines.len() {
        if cur.len() == 0 {
            done
        } else {
            done.push(cur)
        }
    } else {
        let line = lines[i];
        if size + line.len() > max {
            spec_pack_from(lines, i + 1, done.push(cur), line + seq!['\n'], line.len() + 1, max)
        } else {
            spec_pack_from(lines, i + 1, done, cur + line + seq!['\n'], size + line.len() + 1, max)
        }
    }
}

/// The chunks of a text: its lines, greedily packed under the bound.
pub open spec fn spec_chunks(s: Seq<char>, max: nat) -> Seq<Seq<char>> {
    spec_pack_from(spec_lines(s), 0, Seq::empty(), Seq::empty(), 0, max)
}

/// Splits the text into chunks of at most `max_chunk_size` characters per
/// chunk (plus the newline that re-terminates each line), line by line,
/// exactly as [`spec_chunks`] lays them out.
pub fn split_into_chunks(input: &str, max_chunk_size: usize) -> (r: Vec<String>)
    ensures
        r@.map_values(|c: String| c@) == spec_chunks(input@, max_chunk_size as nat),
{
    let total = input.unicode_len();
    let ghost lines = spec_lines(input@);
    let mut result: Vec<String> = Vec::new();
    let mut current = String::new();
    let mut current_size: u128 = 0;
    let mut pos: usize = 0;
    let ghost mut li: int = 0;
    proof {
        assert(input@.skip(0) =~= input@);
        assert(lines.skip(0) =~= lines);
        assert(result@.map_values(|c: String| c@) =~= Seq::<Seq<char>>::empty());
        assert(current@ =~= Seq::<char>::empty());
    }
    while pos < total
        invariant
            total as nat == input@.len(),
            pos <= total,
            lines == spec_lines(input@),
            0 <= li <= lines.len(),
            spec_lines(input@.skip(pos as int)) == lines.skip(li),
            current_size <= 0x1_0000_0000_0000_0001u128,
            spec_chunks(input@, max_chunk_size as nat) == spec_pack_from(
                lines,
                li,
                result@.map_values(|c: String| c@),
                current@,
                current_size as nat,
                max_chunk_size as nat,
            ),
        decreases total - pos,
    {
        let mut end = pos;
        while end < total && input.get_char(end) != '\n'
            invariant
                pos <= end <= total,
                total as nat == input@.len(),
                forall|k: int| pos <= k < end ==> input@[k] != '\n',
            decreases total - end,
        {
            end = end + 1;
        }
        let terminated = end < total;
        let line_end = if terminated && end > pos {
            if input.get_char(end - 1) == '\r' {
                end - 1
            } else {
                end
            }
        } else {
            end
        };
        let line = input.substring_char(pos, line_end);
        let line_len = line.unicode_len();
        proof {
            let s1 = input@.skip(pos as int);
            lemma_first_nl(s1, end - pos);
            if terminated {
                assert(s1.take(end - pos) =~= input@.subrange(pos as int, end as int));
                assert(strip_cr(s1.take(end - pos)) =~= line@);
                assert(s1.skip(end - pos + 1) =~= input@.skip(end as int + 1));
            } else {
                assert(s1 =~= line@);
                assert(input@.skip(total as int) =~= Seq::<char>::empty());
            }
            assert(lines.skip(li) == seq![line@] + spec_lines(
                input@.skip(if terminated { end as int + 1 } else { total as int }),
            ));
            assert(lines.skip(li)[0] == lines[li]);
            assert(lines[li] == line@);
            assert(lines.skip(li).skip(1) =~= lines.skip(li + 1));
            assert(lines.skip(li + 1) =~= spec_lines(
                input@.skip(if terminated { end as int + 1 } else { total as int }),
            ));
            reveal_strlit("\n");
            assert("\n"@ =~= seq!['\n']);
        }
        if current_size + (line_len as u128) > (max_chunk_size as u128) {
            let ghost done0 = result@.map_values(|c: String| c@);
            result.push(current);
            proof {
                assert(result@.map_values(|c: String| c@) =~= done0.push(
                    result@.last()@,
                ));
            }
            current = String::new();
            current_size = 0;
        }
        current.append(line);
        current.append("\n");
        current_size = current_size + (line_len as u128) + 1;
        proof {
            li = li + 1;
        }
        if terminated {
            pos = end + 1;
        } else {
            pos = total;
        }
    }
    proof {
        assert(input@.skip(total as int) =~= Seq::<char>::empty());
        assert(lines.skip(li).len() == 0);
        assert(li == lines.len());
    }
    if !current.as_str().is_empty() {
        let ghost done0 = result@.map_values(|c: String| c@);
        result.push(current);
        proof {
            assert(result@.map_values(|c: String| c@) =~= done0.push(result@.last()@));
        }
    }
    result
}

} // verus!
