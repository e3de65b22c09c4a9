//! Verified text building for log output: decimal rendering of elapsed
//! times, splitting a payload into lines, and prefixing each line.

use vstd::prelude::*;

verus! {

/// The character for one decimal digit.
pub open spec fn digit_char(d: nat) -> char {
    if d == 0 {
        '0'
    } else if d == 1 {
        '1'
    } else if d == 2 {
        '2'
    } else if d == 3 {
        '3'
    } else if d == 4 {
        '4'
    } else if d == 5 {
        '5'
    } else if d == 6 {
        '6'
    } else if d == 7 {
        '7'
    } else if d == 8 {
        '8'
    } else {
        '9'
    }
}

/// The decimal rendering of `n`, most significant digit first, with no
/// leading zeros (except for `n == 0`, rendered as "0").
pub open spec fn decimal(n: nat) -> Seq<char>
    decreases n,
{
    if n < 10 {
        seq![digit_char(n)]
    } else {
        decimal(n / 10) + seq![digit_char(n % 10)]
    }
}

fn digit_string(d: u64) -> (r: String)
    requires
        d < 10,
    ensures
        r@ == seq![digit_char(d as nat)],
{
    let r: String = match d {
        0 => "0".to_owned(),
        1 => "1".to_owned(),
        2 => "2".to_owned(),
        3 => "3".to_owned(),
        4 => "4".to_owned(),
        5 => "5".to_owned(),
        6 => "6".to_owned(),
        7 => "7".to_owned(),
        8 => "8".to_owned(),
        _ => "9".to_owned(),
    };
    proof {
        reveal_strlit("0");
        reveal_strlit("1");
        reveal_strlit("2");
        reveal_strlit("3");
        reveal_strlit("4");
        reveal_strlit("5");
        reveal_strlit("6");
        reveal_strlit("7");
        reveal_strlit("8");
        reveal_strlit("9");
        assert(r@ =~= seq![digit_char(d as nat)]);
    }
    r
}

/// Renders `n` in decimal.
pub fn u64_to_string(n: u64) -> (r: String)
    ensures
        r@ == decimal(n as nat),
    decreases n,
{
    if n < 10 {
        digit_string(n)
    } else {
        let high = u64_to_string(n / 10);
        let low = digit_string(n % 10);
        let r = high.concat(low.as_str());
        proof {
            assert(r@ =~= decimal(n as nat));
        }
        r
    }
}

/// The lines of `s` once `cur` has already been read as the start of the
/// current line: splitting on '\n' yields one entry per segment, so a
/// trailing '\n' yields a final empty line and an empty input yields one
/// empty line.
pub open spec fn split_from(s: Seq<char>, cur: Seq<char>) -> Seq<Seq<char>>
    decreases s.len(),
{
    if s.len() == 0 {
        seq![cur]
    } else if s[0] == '\n' {
        seq![cur] + split_from(s.skip(1), Seq::empty())
    } else {
        split_from(s.skip(1), cur.push(s[0]))
    }
}

/// The segments of `s` between '\n' separators, in order.
pub open spec fn split_lines(s: Seq<char>) -> Seq<Seq<char>> {
    split_from(s, Seq::empty())
}

/// The views of the strings in `v`.
pub open spec fn views_of(v: Seq<String>) -> Seq<Seq<char>> {
    v.map_values(|s: String| s@)
}

/// Splits `s` at each '\n'.
pub fn split_lines_exec(s: &str) -> (r: Vec<String>)
    ensures
        views_of(r@) == split_lines(s@),
{
    let len = s.unicode_len();
    let mut lines: Vec<String> = Vec::new();
    let mut start: usize = 0;
    let mut i: usize = 0;
    proof {
        assert(s@.skip(0) =~= s@);
        assert(s@.subrange(0, 0) =~= Seq::<char>::empty());
        assert(views_of(lines@) =~= Seq::<Seq<char>>::empty());
        assert(views_of(lines@) + split_from(s@, Seq::empty()) =~= split_lines(s@));
    }
    while i < len
        invariant
            0 <= start <= i <= len,
            len == s@.len(),
            split_lines(s@) == views_of(lines@) + split_from(
                s@.skip(i as int),
                s@.subrange(start as int, i as int),
            ),
        decreases len - i,
    {
        let c = s.get_char(i);
        if c == '\n' {
            let line = s.substring_char(start, i).to_owned();
            proof {
                let tail = s@.skip(i as int);
                assert(tail[0] == '\n');
                assert(tail.skip(1) =~= s@.skip(i as int + 1));
                assert(split_from(tail, line@) == seq![line@] + split_from(
                    s@.skip(i as int + 1),
                    Seq::empty(),
                ));
                assert(views_of(lines@.push(line)) =~= views_of(lines@) + seq![line@]);
                assert(s@.subrange(i as int + 1, i as int + 1) =~= Seq::<char>::empty());
                assert((views_of(lines@) + seq![line@]) + split_from(
                    s@.skip(i as int + 1),
                    Seq::empty(),
                ) =~= views_of(lines@) + (seq![line@] + split_from(
                    s@.skip(i as int + 1),
                    Seq::empty(),
                )));
            }
            lines.push(line);
            start = i + 1;
        } else {
            proof {
                let tail = s@.skip(i as int);
                assert(tail[0] == c);
                assert(tail.skip(1) =~= s@.skip(i as int + 1));
                assert(s@.subrange(start as int, i as int).push(c) =~= s@.subrange(
                    start as int,
                    i as int + 1,
                ));
            }
        }
        i += 1;
    }
    let last = s.substring_char(start, len).to_owned();
    proof {
        assert(s@.skip(len as int) =~= Seq::<char>::empty());
        assert(split_from(s@.skip(len as int), last@) == seq![last@]);
        assert(views_of(lines@.push(last)) =~= views_of(lines@) + seq![last@]);
    }
    lines.push(last);
    lines
}

/// `prefix` glued onto the front of every line.
pub open spec fn prefixed(prefix: Seq<char>, lines: Seq<Seq<char>>) -> Seq<Seq<char>> {
    lines.map_values(|l: Seq<char>| prefix + l)
}

/// Splits `msg` into lines and puts `prefix` in front of each one, the
/// shape of one logged payload.
pub fn message_lines(prefix: &str, msg: &str) -> (r: Vec<String>)
    ensures
        views_of(r@) == prefixed(prefix@, split_lines(msg@)),
{
    let raw = split_lines_exec(msg);
    let mut out: Vec<String> = Vec::new();
    let mut i: usize = 0;
    while i < raw.len()
        invariant
            0 <= i <= raw@.len(),
            views_of(raw@) == split_lines(msg@),
            views_of(out@) =~= prefixed(prefix@, split_lines(msg@)).take(i as int),
        decreases raw@.len() - i,
    {
        let mut line: String = prefix.to_owned();
        line.append(raw[i].as_str());
        proof {
            assert(line@ == prefix@ + raw@[i as int]@);
            assert(views_of(out@.push(line)) =~= views_of(out@).push(line@));
            assert(prefixed(prefix@, split_lines(msg@)).take(i as int).push(line@) =~= prefixed(
                prefix@,
                split_lines(msg@),
            ).take(i as int + 1));
        }
        out.push(line);
        i += 1;
    }
    proof {
        assert(prefixed(prefix@, split_lines(msg@)).take(raw@.len() as int) =~= prefixed(
            prefix@,
            split_lines(msg@),
        ));
    }
    out
}

/// Glues `a` and `b` into one freshly owned string.
pub fn concat_str(a: &str, b: &str) -> (r: String)
    ensures
        r@ == a@ + b@,
{
    let mut r: String = a.to_owned();
    r.append(b);
    r
}

} // verus!
