//! Building text: quoting, joining, numbers and padding.
//!
//! A `String` is viewed as its sequence of characters; every function here
//! states the exact characters it returns.

use vstd::prelude::*;
use vstd::string::*;

verus! {

/// `String::push` appends the character to the end of the string.
pub assume_specification[ String::push ](s: &mut String, c: char)
    ensures
        final(s)@ == old(s)@.push(c),
;

/// `s` with every occurrence of `c` written twice.
pub open spec fn doubled(s: Seq<char>, c: char) -> Seq<char>
    decreases s.len(),
{
    if s.len() == 0 {
        Seq::empty()
    } else {
        let head = doubled(s.drop_last(), c);
        if s.last() == c {
            head.push(c).push(c)
        } else {
            head.push(s.last())
        }
    }
}

/// An identifier in double quotes, with inner quotes doubled.
pub open spec fn quoted(name: Seq<char>) -> Seq<char> {
    seq!['"'] + doubled(name, '"') + seq!['"']
}

/// The views of a list of strings.
pub open spec fn texts(list: Seq<String>) -> Seq<Seq<char>> {
    list.map_values(|s: String| s@)
}

/// `parts` one after another with `sep` between neighbours.
pub open spec fn joined(parts: Seq<Seq<char>>, sep: Seq<char>) -> Seq<char>
    decreases parts.len(),
{
    if parts.len() == 0 {
        Seq::empty()
    } else if parts.len() == 1 {
        parts[0]
    } else {
        joined(parts.drop_last(), sep) + sep + parts.last()
    }
}

/// The character of a decimal digit.
pub open spec fn digit(d: int) -> char {
    (48 + d) as char
}

/// `n` in decimal, without leading zeros.
pub open spec fn decimal(n: nat) -> Seq<char>
    decreases n,
{
    if n < 10 {
        seq![digit(n as int)]
    } else {
        decimal(n / 10).push(digit((n % 10) as int))
    }
}

/// `n` in decimal, with a minus sign when negative.
pub open spec fn signed_decimal(n: int) -> Seq<char> {
    if n < 0 {
        seq!['-'] + decimal((-n) as nat)
    } else {
        decimal(n as nat)
    }
}

/// `count` blanks.
pub open spec fn blanks(count: nat) -> Seq<char> {
    Seq::new(count, |i: int| ' ')
}

/// `s` filled up with blanks on the right to at least `width` characters.
pub open spec fn padded(s: Seq<char>, width: nat) -> Seq<char> {
    if s.len() < width {
        s + blanks((width - s.len()) as nat)
    } else {
        s
    }
}

/// The first `limit` characters of `s`, or all of it when it is shorter.
pub open spec fn clipped(s: Seq<char>, limit: nat) -> Seq<char> {
    if s.len() < limit {
        s
    } else {
        s.take(limit as int)
    }
}

/// Whether two texts hold the same characters.
pub fn same(a: &str, b: &str) -> (r: bool)
    ensures
        r == (a@ == b@),
{
    a.to_owned() == b.to_owned()
}

/// `s` with every occurrence of `c` written twice.
pub fn double_char(s: &str, c: char) -> (r: String)
    ensures
        r@ == doubled(s@, c),
{
    let mut out = String::new();
    for x in it: s.chars()
        invariant
            it.seq() == s@,
            out@ == doubled(s@.take(it.index()), c),
    {
        proof {
            assert(s@.take(it.index() + 1).drop_last() == s@.take(it.index()));
        }
        out.push(x);
        if x == c {
            out.push(c);
        }
    }
    proof {
        assert(s@.take(s@.len() as int) == s@);
    }
    out
}

/// Quote an identifier: double quotes around it, doubled inside.
pub fn quote_ident(name: &str) -> (r: String)
    ensures
        r@ == quoted(name@),
{
    let mut out = String::new();
    out.push('"');
    let inner = double_char(name, '"');
    out.append(inner.as_str());
    out.push('"');
    proof {
        assert(out@ =~= quoted(name@));
    }
    out
}

/// Escape the inside of a single-quoted SQL string literal.
pub fn esc(s: &str) -> (r: String)
    ensures
        r@ == doubled(s@, '\''),
{
    double_char(s, '\'')
}

/// `parts` one after another with `sep` between neighbours.
pub fn join(parts: &Vec<String>, sep: &str) -> (r: String)
    ensures
        r@ == joined(texts(parts@), sep@),
{
    let mut out = String::new();
    let ghost all = texts(parts@);
    for i in 0..parts.len()
        invariant
            all == texts(parts@),
            out@ == joined(all.take(i as int), sep@),
    {
        proof {
            assert(all.take(i + 1).drop_last() == all.take(i as int));
        }
        if i > 0 {
            out.append(sep);
        }
        out.append(parts[i].as_str());
        proof {
            assert(all.take(i + 1).last() == parts@[i as int]@);
            if i == 0 {
                assert(out@ =~= parts@[0]@);
            }
        }
    }
    proof {
        assert(all.take(all.len() as int) == all);
    }
    out
}

/// Append `n` in decimal.
pub fn push_decimal(out: &mut String, n: u64)
    ensures
        final(out)@ == old(out)@ + decimal(n as nat),
    decreases n,
{
    if n >= 10 {
        push_decimal(out, n / 10);
    }
    let d: u8 = (n % 10) as u8;
    out.push((48u8 + d) as char);
    proof {
        assert(out@ =~= old(out)@ + decimal(n as nat));
    }
}

/// `n` in decimal.
pub fn decimal_text(n: u64) -> (r: String)
    ensures
        r@ == decimal(n as nat),
{
    let mut out = String::new();
    push_decimal(&mut out, n);
    proof {
        assert(out@ =~= decimal(n as nat));
    }
    out
}

/// `n` in decimal, with a minus sign when negative.
pub fn signed_decimal_text(n: i8) -> (r: String)
    ensures
        r@ == signed_decimal(n as int),
{
    let mut out = String::new();
    if n < 0 {
        out.push('-');
        push_decimal(&mut out, (-(n as i64)) as u64);
    } else {
        push_decimal(&mut out, n as u64);
    }
    proof {
        assert(out@ =~= signed_decimal(n as int));
    }
    out
}

/// `s` filled up with blanks on the right to at least `width` characters.
pub fn pad(s: &str, width: usize) -> (r: String)
    ensures
        r@ == padded(s@, width as nat),
{
    let mut out = s.to_owned();
    let mut filled: usize = s.unicode_len();
    let ghost start = s@.len();
    while filled < width
        invariant
            start == s@.len(),
            start <= filled,
            filled <= width || filled == start,
            out@ == s@ + blanks((filled - start) as nat),
        decreases width - filled,
    {
        out.push(' ');
        filled = filled + 1;
        proof {
            assert(out@ =~= s@ + blanks((filled - start) as nat));
        }
    }
    proof {
        assert(out@ =~= padded(s@, width as nat));
    }
    out
}

/// The first `limit` characters of `s`, or all of it when it is shorter.
pub fn clip(s: &str, limit: usize) -> (r: String)
    ensures
        r@ == clipped(s@, limit as nat),
{
    let len: usize = s.unicode_len();
    if len < limit {
        s.to_owned()
    } else {
        s.substring_char(0, limit).to_owned()
    }
}

/// `s` cut at the first `c`: what stands before it and what stands behind it.
pub open spec fn cut(s: Seq<char>, c: char) -> Option<(Seq<char>, Seq<char>)>
    decreases s.len(),
{
    if s.len() == 0 {
        None
    } else if s[0] == c {
        Some((Seq::empty(), s.skip(1)))
    } else {
        match cut(s.skip(1), c) {
            Some((before, behind)) => Some((seq![s[0]] + before, behind)),
            None => None,
        }
    }
}

/// Where `c` first stands decides the cut.
proof fn lemma_cut(s: Seq<char>, c: char, i: int)
    requires
        0 <= i <= s.len(),
        forall|j: int| 0 <= j < i ==> s[j] != c,
        i < s.len() ==> s[i] == c,
    ensures
        cut(s, c) == if i < s.len() {
            Some((s.take(i), s.skip(i + 1)))
        } else {
            None
        },
    decreases s.len(),
{
    if s.len() > 0 && i > 0 {
        lemma_cut(s.skip(1), c, i - 1);
        if i < s.len() {
            assert(seq![s[0]] + s.skip(1).take(i - 1) =~= s.take(i));
            assert(s.skip(1).skip(i) =~= s.skip(i + 1));
        }
    } else if s.len() > 0 {
        assert(s.take(0) =~= Seq::<char>::empty());
    }
}

/// The views of a cut text.
pub open spec fn pair_texts(pair: Option<(String, String)>) -> Option<(Seq<char>, Seq<char>)> {
    match pair {
        Some((a, b)) => Some((a@, b@)),
        None => None,
    }
}

/// `s` cut at the first `c`.
pub fn split_at_char(s: &str, c: char) -> (r: Option<(String, String)>)
    ensures
        pair_texts(r) == cut(s@, c),
{
    let len: usize = s.unicode_len();
    let mut i: usize = 0;
    for x in it: s.chars()
        invariant
            it.seq() == s@,
            len == s@.len(),
            i == it.index(),
            forall|j: int| 0 <= j < i ==> s@[j] != c,
    {
        if x == c {
            proof {
                lemma_cut(s@, c, i as int);
                assert(s@.subrange(0, i as int) =~= s@.take(i as int));
                assert(s@.subrange(i + 1, len as int) =~= s@.skip(i + 1));
            }
            return Some(
                (s.substring_char(0, i).to_owned(), s.substring_char(i + 1, len).to_owned()),
            );
        }
        i = i + 1;
    }
    proof {
        lemma_cut(s@, c, len as int);
    }
    None
}

// Reading back what was written.

/// What a reader of quoted text takes in after an opening quote `q`: the text
/// up to the closing quote, where a doubled quote stands for one, and what
/// follows the closing quote. `None` when there is no closing quote.
pub open spec fn unquoted(s: Seq<char>, q: char) -> Option<(Seq<char>, Seq<char>)>
    decreases s.len(),
{
    if s.len() == 0 {
        None
    } else if s[0] != q {
        match unquoted(s.skip(1), q) {
            Some((text, rest)) => Some((seq![s[0]] + text, rest)),
            None => None,
        }
    } else if s.len() > 1 && s[1] == q {
        match unquoted(s.skip(2), q) {
            Some((text, rest)) => Some((seq![q] + text, rest)),
            None => None,
        }
    } else {
        Some((Seq::empty(), s.skip(1)))
    }
}

/// Doubling treats the first character and the rest on their own.
proof fn lemma_doubled_front(c: char, s: Seq<char>, q: char)
    ensures
        doubled(seq![c] + s, q) == (if c == q {
            seq![q, q]
        } else {
            seq![c]
        }) + doubled(s, q),
    decreases s.len(),
{
    let whole = seq![c] + s;
    if s.len() == 0 {
        assert(whole.drop_last() =~= Seq::<char>::empty());
        assert(whole.last() == c);
        assert(doubled(whole.drop_last(), q) =~= Seq::<char>::empty());
    } else {
        lemma_doubled_front(c, s.drop_last(), q);
        assert(whole.drop_last() =~= seq![c] + s.drop_last());
        assert(whole.last() == s.last());
    }
    assert(doubled(whole, q) =~= (if c == q {
        seq![q, q]
    } else {
        seq![c]
    }) + doubled(s, q));
}

/// Quoted text reads back: a reader that starts after the opening quote finds
/// exactly the text that was quoted and exactly what follows the closing
/// quote, whatever characters the text holds.
pub proof fn quoted_text_reads_back(text: Seq<char>, rest: Seq<char>, q: char)
    requires
        rest.len() == 0 || rest[0] != q,
    ensures
        unquoted(doubled(text, q) + seq![q] + rest, q) == Some((text, rest)),
    decreases text.len(),
{
    let whole = doubled(text, q) + seq![q] + rest;
    if text.len() == 0 {
        assert(whole =~= seq![q] + rest);
        assert(whole.skip(1) =~= rest);
        assert(text =~= Seq::<char>::empty());
    } else {
        let tail = text.skip(1);
        assert(text =~= seq![text[0]] + tail);
        lemma_doubled_front(text[0], tail, q);
        quoted_text_reads_back(tail, rest, q);
        let shorter = doubled(tail, q) + seq![q] + rest;
        if text[0] == q {
            assert(whole =~= seq![q, q] + shorter);
            assert(whole.skip(2) =~= shorter);
        } else {
            assert(whole =~= seq![text[0]] + shorter);
            assert(whole.skip(1) =~= shorter);
        }
    }
}

/// A quoted identifier at the start of a text reads back as the identifier.
pub proof fn quoted_identifier_reads_back(name: Seq<char>, rest: Seq<char>)
    requires
        rest.len() == 0 || rest[0] != '"',
    ensures
        (quoted(name) + rest)[0] == '"',
        unquoted((quoted(name) + rest).skip(1), '"') == Some((name, rest)),
{
    quoted_text_reads_back(name, rest, '"');
    assert((quoted(name) + rest).skip(1) =~= doubled(name, '"') + seq!['"'] + rest);
}

/// Different identifiers are quoted differently.
pub proof fn quoting_is_injective(a: Seq<char>, b: Seq<char>)
    requires
        quoted(a) == quoted(b),
    ensures
        a == b,
{
    quoted_identifier_reads_back(a, Seq::empty());
    quoted_identifier_reads_back(b, Seq::empty());
}

/// Different texts are escaped differently.
pub proof fn escaping_is_injective(a: Seq<char>, b: Seq<char>, q: char)
    requires
        doubled(a, q) == doubled(b, q),
    ensures
        a == b,
{
    quoted_text_reads_back(a, Seq::empty(), q);
    quoted_text_reads_back(b, Seq::empty(), q);
}

/// The number that digits write.
pub open spec fn number_of(digits: Seq<char>) -> int
    decreases digits.len(),
{
    if digits.len() == 0 {
        0
    } else {
        10 * number_of(digits.drop_last()) + (digits.last() as int - 48)
    }
}

/// A number that was written reads back, and is written in digits only.
pub proof fn decimal_reads_back(n: nat)
    ensures
        number_of(decimal(n)) == n,
        decimal(n).len() > 0,
        forall|i: int| 0 <= i < decimal(n).len() ==> '0' <= #[trigger] decimal(n)[i] <= '9',
    decreases n,
{
    if n < 10 {
        let one = decimal(n);
        assert(one.drop_last() =~= Seq::<char>::empty());
        assert(number_of(one.drop_last()) == 0);
    } else {
        decimal_reads_back(n / 10);
        assert(decimal(n).drop_last() =~= decimal(n / 10));
        assert forall|i: int| 0 <= i < decimal(n).len() implies '0' <= #[trigger] decimal(n)[i]
            <= '9' by {
            if i < decimal(n).len() - 1 {
                assert(decimal(n)[i] == decimal(n / 10)[i]);
            }
        }
    }
}

/// Different numbers are written differently.
pub proof fn decimals_are_injective(a: nat, b: nat)
    requires
        decimal(a) == decimal(b),
    ensures
        a == b,
{
    decimal_reads_back(a);
    decimal_reads_back(b);
}

// What building keeps.

/// A part added to a list stands at the end of its text, behind the separator;
/// a list of one is that part, and an empty list no text.
pub proof fn joining_adds_part_by_part(parts: Seq<Seq<char>>, part: Seq<char>, sep: Seq<char>)
    ensures
        joined(Seq::empty(), sep) == Seq::<char>::empty(),
        joined(seq![part], sep) == part,
        parts.len() > 0 ==> joined(parts.push(part), sep) == joined(parts, sep) + sep + part,
{
    assert(parts.push(part).drop_last() =~= parts);
}

/// A number is written without a leading zero.
pub proof fn decimals_have_no_leading_zero(n: nat)
    ensures
        decimal(n)[0] == '0' ==> n == 0,
        n == 0 ==> decimal(n) == seq!['0'],
    decreases n,
{
    if n >= 10 {
        decimals_have_no_leading_zero(n / 10);
        decimal_reads_back(n / 10);
        assert(decimal(n)[0] == decimal(n / 10)[0]);
    }
}

/// A signed number reads back: a minus sign stands before a negative one only.
pub proof fn signed_decimals_read_back(n: int)
    ensures
        n >= 0 ==> signed_decimal(n) == decimal(n as nat),
        n < 0 ==> signed_decimal(n)[0] == '-' && signed_decimal(n).skip(1) == decimal((-n) as nat),
{
    if n < 0 {
        assert(signed_decimal(n).skip(1) =~= decimal((-n) as nat));
    }
}

/// Padding keeps the text and adds blanks behind it, up to the width and no
/// further.
pub proof fn padding_keeps_the_text(s: Seq<char>, width: nat)
    ensures
        padded(s, width).len() == if s.len() < width {
            width
        } else {
            s.len()
        },
        padded(s, width).take(s.len() as int) == s,
        forall|i: int| s.len() <= i < padded(s, width).len() ==> #[trigger] padded(s, width)[i] == ' ',
{
    assert(padded(s, width).take(s.len() as int) =~= s);
}

/// Clipping keeps the front of a text, and all of it within the limit.
pub proof fn clipping_keeps_the_front(s: Seq<char>, limit: nat)
    ensures
        s.len() <= limit ==> clipped(s, limit) == s,
        s.len() > limit ==> clipped(s, limit).len() == limit,
        forall|i: int| 0 <= i < clipped(s, limit).len() ==> #[trigger] clipped(s, limit)[i] == s[i],
{
    if s.len() == limit {
        assert(s.take(limit as int) =~= s);
    }
}

/// A cut text is what stands before the first such character, the character,
/// and what stands behind it; a text without the character is not cut.
pub proof fn cuts_put_together_again(s: Seq<char>, c: char)
    ensures
        match cut(s, c) {
            Some((before, behind)) => s == before + seq![c] + behind && !before.contains(c),
            None => !s.contains(c),
        },
    decreases s.len(),
{
    if s.len() > 0 {
        if s[0] == c {
            assert(s =~= Seq::<char>::empty() + seq![c] + s.skip(1));
        } else {
            cuts_put_together_again(s.skip(1), c);
            match cut(s.skip(1), c) {
                Some((before, behind)) => {
                    let longer = seq![s[0]] + before;
                    assert(s =~= seq![s[0]] + s.skip(1));
                    assert(s =~= longer + seq![c] + behind);
                    assert(!longer.contains(c)) by {
                        if longer.contains(c) {
                            let k = choose|k: int| 0 <= k < longer.len() && longer[k] == c;
                            assert(before[k - 1] == c);
                        }
                    }
                },
                None => {
                    if s.contains(c) {
                        let k = choose|k: int| 0 <= k < s.len() && s[k] == c;
                        assert(s.skip(1)[k - 1] == c);
                    }
                },
            }
        }
    }
}

/// A quoted identifier stands between quotes, and a name without a quote is
/// written as it is.
pub proof fn plain_names_are_quoted_as_they_are(name: Seq<char>)
    requires
        !name.contains('"'),
    ensures
        quoted(name) == seq!['"'] + name + seq!['"'],
{
    lemma_nothing_to_double(name, '"');
}

/// A text without a character has nothing to double.
proof fn lemma_nothing_to_double(s: Seq<char>, c: char)
    requires
        !s.contains(c),
    ensures
        doubled(s, c) == s,
    decreases s.len(),
{
    if s.len() > 0 {
        assert(s.last() == s[s.len() - 1]);
        assert(!s.drop_last().contains(c)) by {
            if s.drop_last().contains(c) {
                let k = choose|k: int| 0 <= k < s.drop_last().len() && s.drop_last()[k] == c;
                assert(s[k] == c);
            }
        }
        lemma_nothing_to_double(s.drop_last(), c);
        assert(doubled(s, c) =~= s);
    }
}

} // verus!
