//! Decimal text for non-negative integers, and lists of identifiers as text:
//! a header line and one identifier per line. What is written is read back
//! unchanged.

use vstd::prelude::*;

verus! {

/// Whether `b` is the character of a decimal digit.
pub open spec fn is_digit(b: u8) -> bool {
    48 <= b <= 57
}

/// The decimal text of `n`, without leading zeros.
pub open spec fn digits(n: nat) -> Seq<u8>
    decreases n,
{
    if n < 10 {
        seq![(48 + n) as u8]
    } else {
        digits(n / 10).push((48 + n % 10) as u8)
    }
}

/// The number that decimal text stands for; text that holds anything but
/// digits stands for no number in particular.
pub open spec fn number(s: Seq<u8>) -> nat
    decreases s.len(),
{
    if s.len() == 0 {
        0
    } else {
        number(s.drop_last()) * 10 + if is_digit(s.last()) {
            (s.last() - 48) as nat
        } else {
            0
        }
    }
}

/// Whether `s` is made of digits only.
pub open spec fn all_digits(s: Seq<u8>) -> bool {
    forall|i: int| 0 <= i < s.len() ==> is_digit(#[trigger] s[i])
}

/// Decimal text is made of digits, is not empty, and stands for the number it
/// was written for.
pub proof fn lemma_digits(n: nat)
    ensures
        digits(n).len() >= 1,
        all_digits(digits(n)),
        number(digits(n)) == n,
    decreases n,
{
    if n < 10 {
        assert(digits(n).drop_last() =~= Seq::<u8>::empty());
        assert(number(digits(n)) == number(Seq::<u8>::empty()) * 10 + n);
    } else {
        lemma_digits(n / 10);
        let d = digits(n / 10);
        assert(d.push((48 + n % 10) as u8).drop_last() =~= d);
    }
}

/// Appends the decimal text of `n` to `out`.
pub fn push_decimal(out: &mut Vec<u8>, n: u64)
    ensures
        final(out)@ == old(out)@ + digits(n as nat),
    decreases n,
{
    if n >= 10 {
        push_decimal(out, n / 10);
    }
    let d: u8 = 48 + (n % 10) as u8;
    out.push(d);
    proof {
        if n < 10 {
            assert(final(out)@ =~= old(out)@ + digits(n as nat));
        } else {
            assert(final(out)@ =~= old(out)@ + digits(n as nat));
        }
    }
}

/// The header line of a list of identifiers.
pub open spec fn ids_header() -> Seq<u8> {
    seq![105u8, 100u8, 10u8]
}

/// The lines of a list of identifiers: each in decimal, each ended by a
/// line feed.
pub open spec fn id_lines(ids: Seq<u64>) -> Seq<u8>
    decreases ids.len(),
{
    if ids.len() == 0 {
        Seq::empty()
    } else {
        id_lines(ids.drop_last()) + digits(ids.last() as nat).push(10u8)
    }
}

/// The text of a list of identifiers: the header line `id`, then the lines.
pub open spec fn ids_text(ids: Seq<u64>) -> Seq<u8> {
    ids_header() + id_lines(ids)
}

/// Writes a list of identifiers as text.
pub fn write_ids(ids: &Vec<u64>) -> (out: Vec<u8>)
    ensures
        out@ == ids_text(ids@),
{
    let mut out: Vec<u8> = Vec::new();
    out.push(105u8);
    out.push(100u8);
    out.push(10u8);
    assert(out@ =~= ids_header());
    let mut i: usize = 0;
    assert(ids@.take(0) =~= Seq::<u64>::empty());
    while i < ids.len()
        invariant
            i <= ids.len(),
            out@ == ids_header() + id_lines(ids@.take(i as int)),
        decreases ids.len() - i,
    {
        let ghost before = out@;
        push_decimal(&mut out, ids[i]);
        out.push(10u8);
        proof {
            let upto = ids@.take(i + 1);
            assert(upto.drop_last() =~= ids@.take(i as int));
            assert(upto.last() == ids@[i as int]);
            assert(out@ =~= ids_header() + id_lines(upto));
        }
        i += 1;
    }
    assert(ids@.take(i as int) =~= ids@);
    out
}

/// What has been read of a list after some bytes: the identifiers of the
/// complete lines, and the number begun on the line at hand, if any.
pub struct Progress {
    pub done: Seq<u64>,
    pub begun: Option<nat>,
}

/// What has been read after one more byte, or `None` where the byte cannot
/// stand there: a line feed ends a number that was begun, a digit begins or
/// continues a number that fits 64 bits, and nothing else is accepted.
pub open spec fn read_byte(p: Progress, b: u8) -> Option<Progress> {
    if b == 10 {
        match p.begun {
            Some(n) => Some(Progress { done: p.done.push(n as u64), begun: None }),
            None => None,
        }
    } else if is_digit(b) {
        let n = match p.begun {
            Some(n) => n,
            None => 0,
        } * 10 + (b - 48) as nat;
        if n <= u64::MAX {
            Some(Progress { done: p.done, begun: Some(n) })
        } else {
            None
        }
    } else {
        None
    }
}

/// What has been read after the bytes of `s`.
pub open spec fn read_lines(s: Seq<u8>) -> Option<Progress>
    decreases s.len(),
{
    if s.len() == 0 {
        Some(Progress { done: Seq::empty(), begun: None })
    } else {
        match read_lines(s.drop_last()) {
            Some(p) => read_byte(p, s.last()),
            None => None,
        }
    }
}

/// The list of identifiers that a text holds, or `None` where the text is not
/// the header line `id` followed by complete lines of decimal numbers that
/// fit 64 bits.
pub open spec fn ids_of_text(text: Seq<u8>) -> Option<Seq<u64>> {
    if text.len() >= 3 && text.take(3) == ids_header() {
        match read_lines(text.skip(3)) {
            Some(p) => if p.begun.is_none() {
                Some(p.done)
            } else {
                None
            },
            None => None,
        }
    } else {
        None
    }
}

/// Reads a list of identifiers from its text.
pub fn read_ids(text: &Vec<u8>) -> (out: Option<Vec<u64>>)
    ensures
        match out {
            Some(ids) => ids_of_text(text@) == Some(ids@),
            None => ids_of_text(text@).is_none(),
        },
{
    if text.len() < 3 || text[0] != 105u8 || text[1] != 100u8 || text[2] != 10u8 {
        assert(text.len() >= 3 ==> text@.take(3)[0] == text@[0] && text@.take(3)[1] == text@[1]
            && text@.take(3)[2] == text@[2]);
        return None;
    }
    assert(text@.take(3) =~= ids_header());
    let ghost body = text@.skip(3);
    let mut done: Vec<u64> = Vec::new();
    let mut begun: Option<u64> = None;
    let mut i: usize = 3;
    assert(body.take(0) =~= Seq::<u8>::empty());
    while i < text.len()
        invariant
            3 <= i <= text.len(),
            body == text@.skip(3),
            read_lines(body.take(i - 3)) == Some(
                Progress {
                    done: done@,
                    begun: match begun {
                        Some(n) => Some(n as nat),
                        None => None,
                    },
                },
            ),
        decreases text.len() - i,
    {
        let b = text[i];
        proof {
            assert(body.take(i - 3 + 1).drop_last() =~= body.take(i - 3));
            assert(body.take(i - 3 + 1).last() == b);
        }
        let ghost rest = body.take(i - 3 + 1);
        if b == 10u8 {
            match begun {
                Some(n) => {
                    done.push(n);
                    begun = None;
                },
                None => {
                    proof {
                        lemma_read_stays_failed(body, i - 3 + 1);
                    }
                    return None;
                },
            }
        } else if 48 <= b && b <= 57 {
            let d: u64 = (b - 48) as u64;
            let so_far: u64 = match begun {
                Some(n) => n,
                None => 0,
            };
            if so_far > (u64::MAX - d) / 10 {
                proof {
                    assert(so_far * 10 + d > u64::MAX);
                    lemma_read_stays_failed(body, i - 3 + 1);
                }
                return None;
            }
            begun = Some(so_far * 10 + d);
        } else {
            proof {
                lemma_read_stays_failed(body, i - 3 + 1);
            }
            return None;
        }
        i += 1;
    }
    assert(body.take(i - 3) =~= body);
    match begun {
        Some(_) => None,
        None => Some(done),
    }
}

/// Once a prefix cannot be read, the whole cannot be read.
pub proof fn lemma_read_stays_failed(s: Seq<u8>, k: int)
    requires
        0 <= k <= s.len(),
        read_lines(s.take(k)).is_none(),
    ensures
        read_lines(s).is_none(),
    decreases s.len() - k,
{
    if k < s.len() {
        assert(s.take(k + 1).drop_last() =~= s.take(k));
        lemma_read_stays_failed(s, k + 1);
    } else {
        assert(s.take(k) =~= s);
    }
}

/// A shorter run of digits stands for no larger a number.
proof fn lemma_number_grows(s: Seq<u8>, k: int)
    requires
        0 <= k <= s.len(),
    ensures
        number(s.take(k)) <= number(s),
    decreases s.len() - k,
{
    if k < s.len() {
        assert(s.take(k + 1).drop_last() =~= s.take(k));
        lemma_number_grows(s, k + 1);
    } else {
        assert(s.take(k) =~= s);
    }
}

/// Reading a run of digits after complete lines begins the number they stand
/// for.
proof fn lemma_read_digits(head: Seq<u8>, done: Seq<u64>, d: Seq<u8>, k: int)
    requires
        read_lines(head) == Some(Progress { done, begun: None }),
        all_digits(d),
        number(d) <= u64::MAX,
        1 <= k <= d.len(),
    ensures
        read_lines(head + d.take(k)) == Some(
            Progress { done, begun: Some(number(d.take(k))) },
        ),
    decreases k,
{
    let now = head + d.take(k);
    assert(now.drop_last() =~= head + d.take(k - 1));
    assert(now.last() == d[k - 1]);
    assert(d.take(k).drop_last() =~= d.take(k - 1));
    assert(d.take(k).last() == d[k - 1]);
    lemma_number_grows(d, k);
    if k == 1 {
        assert(head + d.take(0) =~= head);
        assert(number(d.take(0)) == 0);
    } else {
        lemma_read_digits(head, done, d, k - 1);
    }
}

/// Reading the lines of a list gives the list.
pub proof fn lemma_read_id_lines(ids: Seq<u64>)
    ensures
        read_lines(id_lines(ids)) == Some(Progress { done: ids, begun: None }),
    decreases ids.len(),
{
    if ids.len() == 0 {
        assert(ids =~= Seq::<u64>::empty());
    } else {
        let rest = ids.drop_last();
        let x = ids.last();
        let d = digits(x as nat);
        lemma_read_id_lines(rest);
        lemma_digits(x as nat);
        lemma_read_digits(id_lines(rest), rest, d, d.len() as int);
        assert(d.take(d.len() as int) =~= d);
        let all = id_lines(ids);
        assert(all =~= (id_lines(rest) + d).push(10u8));
        assert(all.drop_last() =~= id_lines(rest) + d);
        assert(all.last() == 10u8);
        assert(rest.push(x) =~= ids);
        assert(read_lines(id_lines(rest) + d) == Some(
            Progress { done: rest, begun: Some(x as nat) },
        ));
        assert(read_lines(all) == read_byte(
            Progress { done: rest, begun: Some(x as nat) },
            10u8,
        ));
    }
}

/// Writing a list of identifiers and reading the text back gives the same
/// list, and so the same set of identifiers.
pub proof fn lemma_ids_round_trip(ids: Seq<u64>)
    ensures
        ids_of_text(ids_text(ids)) == Some(ids),
        ids_of_text(ids_text(ids)).unwrap().to_set() == ids.to_set(),
{
    let text = ids_text(ids);
    assert(text.take(3) =~= ids_header());
    assert(text.skip(3) =~= id_lines(ids));
    lemma_read_id_lines(ids);
}

} // verus!
