//! Checkpoint codec: the plain-text watermark file, one line per monitored
//! channel, each line the decimal identifier of that channel's last marker
//! message. Unparsable lines degrade to "no watermark" instead of failing.

use vstd::prelude::*;
use vstd::slice::{slice_index_get, slice_subrange};

verus! {

/// An ASCII decimal digit.
pub open spec fn is_digit_byte(b: u8) -> bool {
    48 <= b <= 57
}

/// Every byte of the sequence is a decimal digit.
pub open spec fn all_digit_bytes(s: Seq<u8>) -> bool {
    forall|i: int| 0 <= i < s.len() ==> is_digit_byte(#[trigger] s[i])
}

/// The number the digit bytes denote, most significant first.
pub open spec fn spec_digits_val(s: Seq<u8>) -> int
    decreases s.len(),
{
    if s.len() == 0 {
        0
    } else {
        spec_digits_val(s.drop_last()) * 10 + (s.last() - 48)
    }
}

/// A line parses as a watermark exactly when it is non-empty, all digits,
/// and its value fits the identifier type.
pub open spec fn spec_parse_u64(s: Seq<u8>) -> Option<u64> {
    if s.len() > 0 && all_digit_bytes(s) && spec_digits_val(s) <= u64::MAX {
        Some(spec_digits_val(s) as u64)
    } else {
        None
    }
}

/// A carriage return at the end of a line is ignored.
pub open spec fn strip_cr(line: Seq<u8>) -> Seq<u8> {
    if line.len() > 0 && line.last() == 13 {
        line.drop_last()
    } else {
        line
    }
}

/// The watermarks of the text `s`, with `cur` the partial line read so far:
/// lines are separated by newlines, and text after the last newline forms a
/// final line only when non-empty.
pub open spec fn spec_parse_lines(s: Seq<u8>, cur: Seq<u8>) -> Seq<Option<u64>>
    decreases s.len(),
{
    if s.len() == 0 {
        if cur.len() == 0 {
            Seq::empty()
        } else {
            seq![spec_parse_u64(strip_cr(cur))]
        }
    } else if s[0] == 10 {
        seq![spec_parse_u64(strip_cr(cur))] + spec_parse_lines(s.drop_first(), Seq::empty())
    } else {
        spec_parse_lines(s.drop_first(), cur.push(s[0]))
    }
}

/// The watermarks stored in a checkpoint file's bytes, one per line.
pub open spec fn spec_checkpoints(s: Seq<u8>) -> Seq<Option<u64>> {
    spec_parse_lines(s, Seq::empty())
}

/// The value of digit bytes is never negative.
proof fn lemma_digits_val_nonneg(s: Seq<u8>)
    requires
        all_digit_bytes(s),
    ensures
        spec_digits_val(s) >= 0,
    decreases s.len(),
{
    if s.len() > 0 {
        assert(all_digit_bytes(s.drop_last())) by {
            assert(forall|i: int| 0 <= i < s.len() - 1 ==> s.drop_last()[i] == s[i]);
        }
        lemma_digits_val_nonneg(s.drop_last());
    }
}

/// The value of a prefix of digit bytes never exceeds the whole value.
proof fn lemma_digits_val_take_le(s: Seq<u8>, i: int)
    requires
        all_digit_bytes(s),
        0 <= i <= s.len(),
    ensures
        spec_digits_val(s.take(i)) <= spec_digits_val(s),
    decreases s.len() - i,
{
    if i < s.len() {
        assert(all_digit_bytes(s.take(i))) by {
            assert(forall|k: int| 0 <= k < i ==> s.take(i)[k] == s[k]);
        }
        lemma_digits_val_nonneg(s.take(i));
        assert(s.take(i + 1).drop_last() =~= s.take(i));
        assert(s.take(i + 1).last() == s[i]);
        assert(spec_digits_val(s.take(i + 1)) == spec_digits_val(s.take(i)) * 10 + (s[i] - 48));
        lemma_digits_val_take_le(s, i + 1);
        assert(s.take(s.len() as int) =~= s);
    } else {
        assert(s.take(i) =~= s);
    }
}

/// Parse one line (already stripped of its newline) as a watermark.
pub fn parse_u64_bytes(line: &[u8]) -> (r: Option<u64>)
    ensures
        r == spec_parse_u64(line@),
{
    let n = line.len();
    if n == 0 {
        return None;
    }
    let mut val: u64 = 0;
    let mut k: usize = 0;
    proof {
        assert(line@.take(0) =~= Seq::<u8>::empty());
    }
    while k < n
        invariant
            n == line@.len(),
            k <= n,
            all_digit_bytes(line@.take(k as int)),
            val == spec_digits_val(line@.take(k as int)),
        decreases n - k,
    {
        let b = *slice_index_get(line, k);
        if b < 48 || b > 57 {
            proof {
                assert(!is_digit_byte(line@[k as int]));
            }
            return None;
        }
        proof {
            assert(line@.take(k + 1).drop_last() =~= line@.take(k as int));
            assert(line@.take(k + 1).last() == line@[k as int]);
            assert(all_digit_bytes(line@.take(k + 1))) by {
                assert(forall|i: int| 0 <= i < k ==> line@.take(k + 1)[i] == line@.take(k as int)[i]);
            }
        }
        let d: u64 = (b - 48) as u64;
        let next = match val.checked_mul(10) {
            Some(v) => v.checked_add(d),
            None => None,
        };
        match next {
            Some(v) => {
                val = v;
            },
            None => {
                proof {
                    assert(spec_digits_val(line@.take(k + 1)) > u64::MAX);
                    if spec_parse_u64(line@) is Some {
                        lemma_digits_val_take_le(line@, k + 1);
                        assert(false);
                    }
                }
                return None;
            },
        }
        k += 1;
    }
    proof {
        assert(line@.take(n as int) =~= line@);
    }
    Some(val)
}

/// Parse one accumulated line, ignoring a trailing carriage return.
fn parse_line(cur: &Vec<u8>) -> (r: Option<u64>)
    ensures
        r == spec_parse_u64(strip_cr(cur@)),
{
    let n = cur.len();
    if n > 0 && cur[n - 1] == 13 {
        let body = slice_subrange(cur.as_slice(), 0, n - 1);
        proof {
            assert(body@ =~= strip_cr(cur@));
        }
        parse_u64_bytes(body)
    } else {
        proof {
            assert(cur@ =~= strip_cr(cur@));
        }
        parse_u64_bytes(cur.as_slice())
    }
}

/// Load the per-channel watermarks from the checkpoint file's bytes. Each
/// line yields one entry; a line that is not a plain decimal number in range
/// yields no watermark for its channel.
pub fn parse_checkpoints(data: &[u8]) -> (r: Vec<Option<u64>>)
    ensures
        r@ == spec_checkpoints(data@),
{
    let n = data.len();
    let mut out: Vec<Option<u64>> = Vec::new();
    let mut cur: Vec<u8> = Vec::new();
    let mut i: usize = 0;
    proof {
        assert(data@.skip(0) =~= data@);
        assert(out@ + spec_parse_lines(data@, cur@) =~= spec_checkpoints(data@));
    }
    while i < n
        invariant
            n == data@.len(),
            i <= n,
            out@ + spec_parse_lines(data@.skip(i as int), cur@) == spec_checkpoints(data@),
        decreases n - i,
    {
        let b = *slice_index_get(data, i);
        proof {
            assert(data@.skip(i as int)[0] == data@[i as int]);
            assert(data@.skip(i as int).drop_first() =~= data@.skip(i + 1));
        }
        if b == 10 {
            let ghost old_out = out@;
            let ghost old_cur = cur@;
            let v = parse_line(&cur);
            out.push(v);
            cur.clear();
            proof {
                assert(spec_parse_lines(data@.skip(i as int), old_cur) == seq![v]
                    + spec_parse_lines(data@.skip(i + 1), cur@));
                assert(out@ + spec_parse_lines(data@.skip(i + 1), cur@) =~= old_out
                    + spec_parse_lines(data@.skip(i as int), old_cur));
            }
        } else {
            let ghost old_cur = cur@;
            cur.push(b);
            proof {
                assert(cur@ =~= old_cur.push(b));
            }
        }
        i += 1;
    }
    if cur.len() > 0 {
        let v = parse_line(&cur);
        out.push(v);
    }
    proof {
        assert(data@.skip(n as int) =~= Seq::<u8>::empty());
        assert(out@ =~= spec_checkpoints(data@));
    }
    out
}

/// The decimal digit bytes of an identifier, most significant first.
pub open spec fn spec_u64_digit_bytes(n: nat) -> Seq<u8>
    decreases n,
{
    if n < 10 {
        seq![(n + 48) as u8]
    } else {
        spec_u64_digit_bytes(n / 10).push((n % 10 + 48) as u8)
    }
}

/// The checkpoint file's bytes for these watermarks: one decimal identifier
/// per line, each line ending in a newline.
pub open spec fn spec_render_checkpoints(ids: Seq<u64>) -> Seq<u8>
    decreases ids.len(),
{
    if ids.len() == 0 {
        Seq::empty()
    } else {
        spec_u64_digit_bytes(ids[0] as nat) + seq![10u8] + spec_render_checkpoints(
            ids.drop_first(),
        )
    }
}

/// Append the decimal digit bytes of `n`.
fn push_u64_digits(out: &mut Vec<u8>, n: u64)
    ensures
        final(out)@ == old(out)@ + spec_u64_digit_bytes(n as nat),
    decreases n,
{
    if n < 10 {
        out.push((n + 48) as u8);
        proof {
            assert(out@ =~= old(out)@ + spec_u64_digit_bytes(n as nat));
        }
    } else {
        push_u64_digits(out, n / 10);
        out.push((n % 10 + 48) as u8);
        proof {
            assert(out@ =~= old(out)@ + spec_u64_digit_bytes(n as nat));
        }
    }
}

/// Serialize the per-channel watermarks as the checkpoint file's bytes.
pub fn render_checkpoints(ids: &Vec<u64>) -> (r: Vec<u8>)
    ensures
        r@ == spec_render_checkpoints(ids@),
{
    let mut r: Vec<u8> = Vec::new();
    let mut i: usize = 0;
    proof {
        assert(ids@.skip(0) =~= ids@);
        assert(r@ + spec_render_checkpoints(ids@) =~= spec_render_checkpoints(ids@));
    }
    while i < ids.len()
        invariant
            i <= ids@.len(),
            r@ + spec_render_checkpoints(ids@.skip(i as int)) == spec_render_checkpoints(ids@),
        decreases ids@.len() - i,
    {
        proof {
            assert(ids@.skip(i as int)[0] == ids@[i as int]);
            assert(ids@.skip(i as int).drop_first() =~= ids@.skip(i + 1));
        }
        let ghost old_r = r@;
        push_u64_digits(&mut r, ids[i]);
        r.push(10);
        proof {
            assert(r@ =~= old_r + spec_u64_digit_bytes(ids@[i as int] as nat) + seq![10u8]);
            assert(r@ + spec_render_checkpoints(ids@.skip(i + 1)) =~= spec_render_checkpoints(
                ids@,
            ));
        }
        i += 1;
    }
    proof {
        assert(ids@.skip(ids@.len() as int) =~= Seq::<u64>::empty());
        assert(r@ =~= spec_render_checkpoints(ids@));
    }
    r
}

/// Digit bytes are digits, and there is at least one of them.
proof fn lemma_digit_bytes_are_digits(n: nat)
    ensures
        all_digit_bytes(spec_u64_digit_bytes(n)),
        spec_u64_digit_bytes(n).len() > 0,
    decreases n,
{
    if n >= 10 {
        lemma_digit_bytes_are_digits(n / 10);
    }
}

/// Rendering an identifier and reading the digits back yields the
/// identifier.
proof fn lemma_digit_bytes_val(n: nat)
    ensures
        spec_digits_val(spec_u64_digit_bytes(n)) == n,
    decreases n,
{
    if n < 10 {
        assert(spec_u64_digit_bytes(n).drop_last() =~= Seq::<u8>::empty());
        assert(spec_digits_val(Seq::<u8>::empty()) == 0);
        assert(((n + 48) as u8) as int == n + 48);
    } else {
        lemma_digit_bytes_val(n / 10);
        assert(spec_u64_digit_bytes(n).drop_last() =~= spec_u64_digit_bytes(n / 10));
        assert(spec_u64_digit_bytes(n).last() == (n % 10 + 48) as u8);
        assert(((n % 10 + 48) as u8) as int == n % 10 + 48);
        assert(n / 10 * 10 + n % 10 == n);
    }
}

/// A rendered identifier parses back to itself.
proof fn lemma_parse_digit_bytes(n: u64)
    ensures
        spec_parse_u64(spec_u64_digit_bytes(n as nat)) == Some(n),
{
    lemma_digit_bytes_are_digits(n as nat);
    lemma_digit_bytes_val(n as nat);
}

/// Reading a newline-terminated line advances the parse by exactly one
/// entry.
proof fn lemma_parse_lines_through(line: Seq<u8>, rest: Seq<u8>, cur: Seq<u8>)
    requires
        forall|i: int| 0 <= i < line.len() ==> #[trigger] line[i] != 10,
    ensures
        spec_parse_lines(line + seq![10u8] + rest, cur) == seq![
            spec_parse_u64(strip_cr(cur + line)),
        ] + spec_parse_lines(rest, Seq::empty()),
    decreases line.len(),
{
    let s = line + seq![10u8] + rest;
    if line.len() == 0 {
        assert(s[0] == 10);
        assert(s.drop_first() =~= rest);
        assert(cur + line =~= cur);
    } else {
        assert(s[0] == line[0]);
        assert(s.drop_first() =~= line.drop_first() + seq![10u8] + rest);
        assert(forall|i: int|
            0 <= i < line.drop_first().len() ==> #[trigger] line.drop_first()[i] != 10);
        lemma_parse_lines_through(line.drop_first(), rest, cur.push(line[0]));
        assert(cur.push(line[0]) + line.drop_first() =~= cur + line);
    }
}

/// Parsing a rendered checkpoint file yields exactly the rendered
/// watermarks, each present: the codec round-trips.
pub proof fn lemma_checkpoints_round_trip(ids: Seq<u64>)
    ensures
        spec_checkpoints(spec_render_checkpoints(ids)) == ids.map_values(|id: u64| Some(id)),
    decreases ids.len(),
{
    if ids.len() == 0 {
        assert(ids.map_values(|id: u64| Some(id)) =~= Seq::<Option<u64>>::empty());
    } else {
        let head = ids[0];
        let digits = spec_u64_digit_bytes(head as nat);
        let rest = spec_render_checkpoints(ids.drop_first());
        lemma_digit_bytes_are_digits(head as nat);
        assert(forall|i: int| 0 <= i < digits.len() ==> #[trigger] digits[i] != 10);
        lemma_parse_lines_through(digits, rest, Seq::empty());
        assert(Seq::<u8>::empty() + digits =~= digits);
        assert(digits.last() != 13);
        assert(strip_cr(digits) =~= digits);
        lemma_parse_digit_bytes(head);
        lemma_checkpoints_round_trip(ids.drop_first());
        assert(spec_checkpoints(spec_render_checkpoints(ids)) =~= seq![Some(head)]
            + ids.drop_first().map_values(|id: u64| Some(id)));
        assert(seq![Some(head)] + ids.drop_first().map_values(|id: u64| Some(id)) =~= ids.map_values(
            |id: u64| Some(id),
        ));
    }
}

} // verus!
