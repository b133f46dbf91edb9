//! Text building blocks: decimal numbers, padding, truncation, durations, joins.

use vstd::prelude::*;

verus! {

/// The ASCII digit for `d < 10`.
pub open spec fn digit_char(d: nat) -> char {
    if d == 0 { '0' }
    else if d == 1 { '1' }
    else if d == 2 { '2' }
    else if d == 3 { '3' }
    else if d == 4 { '4' }
    else if d == 5 { '5' }
    else if d == 6 { '6' }
    else if d == 7 { '7' }
    else if d == 8 { '8' }
    else { '9' }
}

/// The decimal representation of `n`, without leading zeros.
pub open spec fn dec(n: nat) -> Seq<char>
    decreases n,
{
    if n < 10 {
        seq![digit_char(n)]
    } else {
        dec(n / 10).push(digit_char(n % 10))
    }
}

fn digit_str(d: u64) -> (r: &'static str)
    requires
        d < 10,
    ensures
        r@ == seq![digit_char(d as nat)],
{
    proof {
        reveal_strlit("0");
        reveal_strlit("1");
        reveal_strlit("2");
        reveal_strlit("3");
        reveal_strlit("4");
        reveal_strlit("5");
        reveal_strlit("6");
        reveal_strlit("7");
        reveal_strlit("8");
        reveal_strlit("9");
    }
    if d == 0 { "0" }
    else if d == 1 { "1" }
    else if d == 2 { "2" }
    else if d == 3 { "3" }
    else if d == 4 { "4" }
    else if d == 5 { "5" }
    else if d == 6 { "6" }
    else if d == 7 { "7" }
    else if d == 8 { "8" }
    else { "9" }
}

/// Renders `n` in decimal.
pub fn decimal(n: u64) -> (r: String)
    ensures
        r@ == dec(n as nat),
    decreases n,
{
    if n < 10 {
        String::from_str(digit_str(n))
    } else {
        let mut s = decimal(n / 10);
        s.append(digit_str(n % 10));
        s
    }
}


/// `n` spaces.
pub open spec fn spaces(n: nat) -> Seq<char> {
    Seq::new(n, |i: int| ' ')
}

/// `s` left-aligned in a field of `width` characters, as `{:<width}` formats it.
pub open spec fn pad_spec(s: Seq<char>, width: nat) -> Seq<char> {
    if s.len() < width {
        s + spaces((width - s.len()) as nat)
    } else {
        s
    }
}

/// Left-aligns `s` in a field of `width` characters.
pub fn pad(s: &str, width: usize) -> (r: String)
    ensures
        r@ == pad_spec(s@, width as nat),
        r@.len() == if s@.len() < width { width as nat } else { s@.len() },
        r@.subrange(0, s@.len() as int) == s@,
        forall|i: int| s@.len() <= i < r@.len() ==> r@[i] == ' ',
{
    let n = s.unicode_len();
    let mut r = String::from_str(s);
    if n < width {
        let k = width - n;
        let mut i: usize = 0;
        proof {
            reveal_strlit(" ");
            assert(r@ =~= s@ + spaces(0));
        }
        while i < k
            invariant
                i <= k,
                k == width - n,
                n == s@.len(),
                r@ =~= s@ + spaces(i as nat),
            decreases k - i,
        {
            proof {
                reveal_strlit(" ");
            }
            r.append(" ");
            i = i + 1;
            assert(r@ =~= s@ + spaces(i as nat));
        }
    }
    assert(r@.subrange(0, s@.len() as int) =~= s@);
    r
}

/// The parts joined by `sep`.
pub open spec fn join_spec(parts: Seq<Seq<char>>, sep: Seq<char>) -> Seq<char>
    decreases parts.len(),
{
    if parts.len() == 0 {
        Seq::empty()
    } else if parts.len() == 1 {
        parts[0]
    } else {
        join_spec(parts.drop_last(), sep) + sep + parts.last()
    }
}

/// The views of a vector of strings.
pub open spec fn views(v: Seq<String>) -> Seq<Seq<char>> {
    v.map_values(|s: String| s@)
}

/// Joins the parts with `sep` between each two of them.
pub fn join(parts: &Vec<String>, sep: &str) -> (r: String)
    ensures
        r@ == join_spec(views(parts@), sep@),
{
    let mut r = String::new();
    let n = parts.len();
    let mut i: usize = 0;
    while i < n
        invariant
            i <= n,
            n == parts@.len(),
            r@ == join_spec(views(parts@).take(i as int), sep@),
        decreases n - i,
    {
        let ghost prev = views(parts@).take(i as int);
        if i > 0 {
            r.append(sep);
        }
        r.append(parts[i].as_str());
        proof {
            let next = views(parts@).take(i + 1);
            assert(next.drop_last() =~= prev);
            assert(next.last() == parts@[i as int]@);
            if i == 0 {
                assert(next.len() == 1);
            }
        }
        i = i + 1;
    }
    assert(views(parts@).take(n as int) =~= views(parts@));
    r
}


/// Whether a text holds no line break.
pub open spec fn no_newline(s: Seq<char>) -> bool {
    forall|i: int| 0 <= i < s.len() ==> s[i] != '\n'
}

/// Whether `s` begins with `p`.
pub open spec fn starts_with(s: Seq<char>, p: Seq<char>) -> bool {
    p.len() <= s.len() && s.subrange(0, p.len() as int) == p
}

/// Whether `s` ends with `t`.
pub open spec fn ends_with(s: Seq<char>, t: Seq<char>) -> bool {
    t.len() <= s.len() && s.subrange(s.len() - t.len(), s.len() as int) == t
}

/// Whether `s` is `a`, then `mid`, then `b`.
pub open spec fn splits(s: Seq<char>, a: Seq<char>, mid: Seq<char>, b: Seq<char>) -> bool {
    s == a + mid + b
}

/// Whether `c` is an ASCII decimal digit.
pub open spec fn is_digit(c: char) -> bool {
    '0' <= c && c <= '9'
}

/// The number a string of decimal digits denotes.
pub open spec fn digits_value(s: Seq<char>) -> nat
    decreases s.len(),
{
    if s.len() == 0 {
        0
    } else {
        digits_value(s.drop_last()) * 10 + ((s.last() as nat) - ('0' as nat)) as nat
    }
}

proof fn lemma_digit_char_value(k: nat)
    requires
        k < 10,
    ensures
        is_digit(digit_char(k)),
        (digit_char(k) as nat) - ('0' as nat) == k,
        k > 0 ==> digit_char(k) != '0',
{
}

/// The decimal text of `n` is made of digits, begins with a nonzero digit unless `n`
/// is zero, and reads back as `n`.
pub proof fn lemma_dec_reads_back(n: nat)
    ensures
        dec(n).len() >= 1,
        forall|i: int| 0 <= i < dec(n).len() ==> is_digit(#[trigger] dec(n)[i]),
        n > 0 ==> dec(n)[0] != '0',
        digits_value(dec(n)) == n,
    decreases n,
{
    lemma_digit_char_value(n % 10);
    if n < 10 {
        lemma_digit_char_value(n);
        assert(dec(n).drop_last() =~= Seq::<char>::empty());
        assert(digits_value(Seq::<char>::empty()) == 0);
        assert(dec(n).last() == digit_char(n));
        assert(digits_value(dec(n)) == digits_value(dec(n).drop_last()) * 10 + ((dec(n).last() as nat)
            - ('0' as nat)) as nat);
    }
    if n >= 10 {
        lemma_dec_reads_back(n / 10);
        let d = dec(n / 10);
        assert(dec(n).drop_last() =~= d);
        assert forall|i: int| 0 <= i < dec(n).len() implies is_digit(#[trigger] dec(n)[i]) by {
            if i < d.len() {
                assert(dec(n)[i] == d[i]);
            }
        }
        assert(dec(n)[0] == d[0]);
        assert(dec(n).last() == digit_char(n % 10));
        assert(digits_value(dec(n)) == digits_value(d) * 10 + ((digit_char(n % 10) as nat) - (
        '0' as nat)) as nat);
        assert((n / 10) * 10 + n % 10 == n);
    }
}

/// Text without line breaks stays so when put together.
pub proof fn lemma_no_newline_add(a: Seq<char>, b: Seq<char>)
    requires
        no_newline(a),
        no_newline(b),
    ensures
        no_newline(a + b),
{
    assert forall|i: int| 0 <= i < (a + b).len() implies (a + b)[i] != '\n' by {
        if i < a.len() {
            assert((a + b)[i] == a[i]);
        } else {
            assert((a + b)[i] == b[i - a.len()]);
        }
    }
}

/// A decimal number holds no line break.
pub proof fn lemma_dec_no_newline(n: nat)
    ensures
        no_newline(dec(n)),
    decreases n,
{
    if n >= 10 {
        lemma_dec_no_newline(n / 10);
        let d = dec(n / 10);
        assert forall|i: int| 0 <= i < dec(n).len() implies dec(n)[i] != '\n' by {
            if i < d.len() {
                assert(dec(n)[i] == d[i]);
            }
        }
    }
}

/// Padding adds only spaces.
pub proof fn lemma_pad_no_newline(s: Seq<char>, width: nat)
    requires
        no_newline(s),
    ensures
        no_newline(pad_spec(s, width)),
{
    if s.len() < width {
        let sp = spaces((width - s.len()) as nat);
        assert(no_newline(sp));
        lemma_no_newline_add(s, sp);
    }
}

/// The lines of a text, as `str::split('\n')` gives them: one more than the number
/// of line breaks, the empty text being one empty line.
pub open spec fn lines(s: Seq<char>) -> Seq<Seq<char>>
    decreases s.len(),
{
    if s.len() == 0 {
        seq![Seq::empty()]
    } else {
        let prev = lines(s.drop_last());
        if s.last() == '\n' {
            prev.push(Seq::empty())
        } else {
            prev.update(prev.len() - 1, prev.last().push(s.last()))
        }
    }
}

/// A text always has at least one line.
pub proof fn lemma_lines_nonempty(s: Seq<char>)
    ensures
        lines(s).len() >= 1,
    decreases s.len(),
{
    if s.len() > 0 {
        lemma_lines_nonempty(s.drop_last());
    }
}

proof fn lemma_lines_append_plain(x: Seq<char>, b: Seq<char>)
    requires
        no_newline(b),
    ensures
        lines(x + b).len() == lines(x).len(),
        lines(x + b) == lines(x).update(lines(x).len() - 1, lines(x).last() + b),
    decreases b.len(),
{
    lemma_lines_nonempty(x);
    if b.len() == 0 {
        assert(x + b =~= x);
        assert(lines(x).last() + b =~= lines(x).last());
        assert(lines(x).update(lines(x).len() - 1, lines(x).last()) =~= lines(x));
    } else {
        let b1 = b.drop_last();
        assert(no_newline(b1)) by {
            assert forall|i: int| 0 <= i < b1.len() implies b1[i] != '\n' by {
                assert(b1[i] == b[i]);
            }
        }
        lemma_lines_append_plain(x, b1);
        let c = b.last();
        assert(b[b.len() - 1] != '\n');
        assert((x + b).drop_last() =~= x + b1);
        assert((x + b).last() == c);
        assert(lines(x).last() + b1 + seq![c] =~= lines(x).last() + b);
        assert((lines(x).last() + b1).push(c) =~= lines(x).last() + b);
        assert(lines(x + b) =~= lines(x).update(lines(x).len() - 1, lines(x).last() + b));
    }
}

/// Joining lines that hold no line break by line breaks gives a text whose lines
/// are exactly those parts.
pub proof fn lemma_lines_of_join(parts: Seq<Seq<char>>)
    requires
        parts.len() >= 1,
        forall|i: int| 0 <= i < parts.len() ==> no_newline(#[trigger] parts[i]),
    ensures
        lines(join_spec(parts, "\n"@)) == parts,
    decreases parts.len(),
{
    reveal_strlit("\n");
    if parts.len() == 1 {
        let e = Seq::<char>::empty();
        lemma_lines_append_plain(e, parts[0]);
        assert(e + parts[0] =~= parts[0]);
        assert(e + parts[0] =~= parts[0]);
        assert(lines(e) =~= seq![e]);
        assert(lines(parts[0]) =~= parts);
    } else {
        let d = parts.drop_last();
        assert forall|i: int| 0 <= i < d.len() implies no_newline(#[trigger] d[i]) by {
            assert(d[i] == parts[i]);
        }
        lemma_lines_of_join(d);
        let j = join_spec(d, "\n"@);
        let jn = j + "\n"@;
        assert(jn.drop_last() =~= j);
        assert(jn.last() == '\n');
        assert(lines(jn) == lines(j).push(Seq::empty()));
        assert(no_newline(parts[parts.len() - 1]));
        lemma_lines_append_plain(jn, parts.last());
        assert(Seq::<char>::empty() + parts.last() =~= parts.last());
        assert(lines(jn + parts.last()) =~= parts);
    }
}

} // verus!
