use vstd::prelude::*;

verus! {

/// Characters with the Unicode `White_Space` property, the set that
/// `char::is_whitespace` and the `trim` family of `str` test against.
pub open spec fn is_white_space(c: char) -> bool {
    let u = c as u32;
    ||| 0x09 <= u <= 0x0D
    ||| u == 0x20
    ||| u == 0x85
    ||| u == 0xA0
    ||| u == 0x1680
    ||| 0x2000 <= u <= 0x200A
    ||| u == 0x2028
    ||| u == 0x2029
    ||| u == 0x202F
    ||| u == 0x205F
    ||| u == 0x3000
}

/// `s` without its trailing white space (what `str::trim_end` keeps).
pub open spec fn trimmed_end(s: Seq<char>) -> Seq<char>
    decreases s.len(),
{
    if s.len() > 0 && is_white_space(s.last()) {
        trimmed_end(s.drop_last())
    } else {
        s
    }
}

/// `s` without its leading white space (what `str::trim_start` keeps).
pub open spec fn trimmed_start(s: Seq<char>) -> Seq<char>
    decreases s.len(),
{
    if s.len() > 0 && is_white_space(s.first()) {
        trimmed_start(s.drop_first())
    } else {
        s
    }
}

/// `s` without leading and trailing white space (what `str::trim` keeps).
pub open spec fn trimmed(s: Seq<char>) -> Seq<char> {
    trimmed_start(trimmed_end(s))
}

/// The pieces of `t` between its `'\n'` characters: one more piece than
/// there are newlines.
pub open spec fn newline_pieces(t: Seq<char>) -> Seq<Seq<char>>
    decreases t.len(),
{
    if t.len() == 0 {
        seq![Seq::<char>::empty()]
    } else {
        let init = newline_pieces(t.drop_last());
        if t.last() == '\n' {
            init.push(Seq::<char>::empty())
        } else {
            init.update(init.len() - 1, init.last().push(t.last()))
        }
    }
}

/// A line that was ended by `"\r\n"` loses its `'\r'`.
pub open spec fn strip_cr(l: Seq<char>) -> Seq<char> {
    if l.len() > 0 && l.last() == '\r' {
        l.drop_last()
    } else {
        l
    }
}

/// The lines of `s` as `str::lines` yields them: split at `'\n'` or `"\r\n"`;
/// the final line ending is optional, and a bare `'\r'` ends no line.
pub open spec fn text_lines(s: Seq<char>) -> Seq<Seq<char>> {
    if s.len() == 0 {
        Seq::empty()
    } else if s.last() == '\n' {
        newline_pieces(s.drop_last()).map_values(|l: Seq<char>| strip_cr(l))
    } else {
        let p = newline_pieces(s);
        p.take(p.len() - 1).map_values(|l: Seq<char>| strip_cr(l)).push(p.last())
    }
}

/// Lexicographic order on character sequences by code point; this is the
/// order of `String`'s `Ord`, since UTF-8 keeps code point order.
pub open spec fn chars_lt(a: Seq<char>, b: Seq<char>) -> bool
    decreases a.len(),
{
    if a.len() == 0 {
        b.len() > 0
    } else if b.len() == 0 {
        false
    } else if a[0] != b[0] {
        a[0] < b[0]
    } else {
        chars_lt(a.drop_first(), b.drop_first())
    }
}

/// The result of `str::to_lowercase` (Unicode lower-case mapping) on `s`.
pub uninterp spec fn lowercase(s: Seq<char>) -> Seq<char>;

/// Whether every character of `s` is ASCII.
pub open spec fn is_ascii_text(s: Seq<char>) -> bool {
    forall|i: int| 0 <= i < s.len() ==> (#[trigger] s[i] as u32) < 128
}

/// `c` with `A`–`Z` taken to `a`–`z`; any other character as it is.
pub open spec fn ascii_lower_char(c: char) -> char {
    if 'A' <= c && c <= 'Z' {
        ((c as u32) + 32) as char
    } else {
        c
    }
}

/// `s` with `A`–`Z` taken to `a`–`z`, character by character.
pub open spec fn ascii_lowercase(s: Seq<char>) -> Seq<char> {
    s.map_values(|c: char| ascii_lower_char(c))
}

/// Lower-cases `s` with `str::to_lowercase`; the result is named
/// `lowercase(s@)`. Of ASCII text it is stated that `A`–`Z` become `a`–`z`
/// and every other character stays; beyond ASCII nothing more is stated.
#[verifier::external_body]
pub fn to_lowercase(s: &str) -> (r: String)
    ensures
        r@ == lowercase(s@),
        is_ascii_text(s@) ==> r@ == ascii_lowercase(s@),
{
    s.to_lowercase()
}

/// The characters of `s`, in order.
pub fn chars_of(s: &str) -> (v: Vec<char>)
    ensures
        v@ == s@,
{
    let mut v: Vec<char> = Vec::new();
    for c in it: s.chars()
        invariant
            v@ == it.seq().take(it.index() as int),
            it.seq() == s@,
    {
        v.push(c);
    }
    v
}

/// Appends `c` to `s` with `String::push`.
#[verifier::external_body]
pub fn push_char(s: &mut String, c: char)
    ensures
        final(s)@ == old(s)@.push(c),
{
    s.push(c);
}

/// Removes the last character of `s` with `String::pop` and returns it;
/// an empty `s` is left as it is.
#[verifier::external_body]
pub fn pop_char(s: &mut String) -> (r: Option<char>)
    ensures
        old(s)@.len() == 0 ==> r is None && final(s)@ == old(s)@,
        old(s)@.len() > 0 ==> r == Some(old(s)@.last()) && final(s)@ == old(s)@.drop_last(),
{
    s.pop()
}

/// The text of `a` followed by that of `b`.
pub fn concat(a: &str, b: &str) -> (r: String)
    ensures
        r@ == a@ + b@,
{
    let mut r = String::from_str(a);
    r.append(b);
    r
}

/// Whether `a` and `b` hold the same text.
pub fn same_text(a: &str, b: &str) -> (r: bool)
    ensures
        r == (a@ == b@),
{
    let x = chars_of(a);
    let y = chars_of(b);
    if x.len() != y.len() {
        return false;
    }
    let mut i: usize = 0;
    while i < x.len()
        invariant
            x@ == a@,
            y@ == b@,
            x@.len() == y@.len(),
            i <= x@.len(),
            forall|k: int| 0 <= k < i ==> x@[k] == y@[k],
        decreases x@.len() - i,
    {
        if x[i] != y[i] {
            assert(x@[i as int] != y@[i as int]);
            return false;
        }
        i = i + 1;
    }
    assert(x@ =~= y@);
    true
}

/// Whether `c` has the Unicode `White_Space` property.
pub fn white_space(c: char) -> (r: bool)
    ensures
        r == is_white_space(c),
{
    let u = c as u32;
    (0x09 <= u && u <= 0x0D) || u == 0x20 || u == 0x85 || u == 0xA0 || u == 0x1680 || (0x2000
        <= u && u <= 0x200A) || u == 0x2028 || u == 0x2029 || u == 0x202F || u == 0x205F || u
        == 0x3000
}

/// The length of `trimmed_end(v)`, which is a prefix of `v`.
pub fn trimmed_end_len(v: &Vec<char>) -> (n: usize)
    ensures
        n <= v@.len(),
        trimmed_end(v@) == v@.take(n as int),
{
    let mut end = v.len();
    assert(v@.take(end as int) =~= v@);
    while end > 0 && white_space(v[end - 1])
        invariant
            end <= v@.len(),
            trimmed_end(v@) == trimmed_end(v@.take(end as int)),
        decreases end,
    {
        assert(v@.take(end as int).drop_last() =~= v@.take(end - 1));
        end = end - 1;
    }
    end
}

/// The index of the first character of `trimmed_start(v@.take(end))`.
pub fn trimmed_start_from(v: &Vec<char>, end: usize) -> (b: usize)
    requires
        end <= v@.len(),
    ensures
        b <= end,
        trimmed_start(v@.take(end as int)) == v@.subrange(b as int, end as int),
{
    let mut b: usize = 0;
    assert(v@.subrange(0, end as int) =~= v@.take(end as int));
    while b < end && white_space(v[b])
        invariant
            b <= end <= v@.len(),
            trimmed_start(v@.take(end as int)) == trimmed_start(v@.subrange(b as int, end as int)),
        decreases end - b,
    {
        assert(v@.subrange(b as int, end as int).drop_first() =~= v@.subrange(
            b + 1,
            end as int,
        ));
        b = b + 1;
    }
    b
}

/// `s` without leading and trailing white space, as `str::trim` returns it.
pub fn trim(s: &str) -> (r: String)
    ensures
        r@ == trimmed(s@),
{
    let v = chars_of(s);
    let end = trimmed_end_len(&v);
    let b = trimmed_start_from(&v, end);
    let piece = s.substring_char(b, end);
    String::from_str(piece)
}

/// Whether `a` comes before `b` in code point order.
pub fn chars_less(a: &Vec<char>, b: &Vec<char>) -> (r: bool)
    ensures
        r == chars_lt(a@, b@),
{
    let mut i: usize = 0;
    assert(a@.skip(0) =~= a@);
    assert(b@.skip(0) =~= b@);
    while i < a.len() && i < b.len() && a[i] == b[i]
        invariant
            i <= a@.len(),
            i <= b@.len(),
            chars_lt(a@, b@) == chars_lt(a@.skip(i as int), b@.skip(i as int)),
        decreases a@.len() - i,
    {
        assert(a@.skip(i as int).drop_first() =~= a@.skip(i + 1));
        assert(b@.skip(i as int).drop_first() =~= b@.skip(i + 1));
        i = i + 1;
    }
    if i == a.len() {
        i < b.len()
    } else if i == b.len() {
        false
    } else {
        a[i] < b[i]
    }
}

/// There is always at least one piece.
pub proof fn lemma_newline_pieces_nonempty(t: Seq<char>)
    ensures
        newline_pieces(t).len() >= 1,
    decreases t.len(),
{
    if t.len() > 0 {
        lemma_newline_pieces_nonempty(t.drop_last());
    }
}

/// The characters of `v` from `a` to `b` as a `String`, with a final `'\r'`
/// left out when `drop_cr` holds.
fn piece_string(s: &str, v: &Vec<char>, a: usize, b: usize, drop_cr: bool) -> (r: String)
    requires
        v@ == s@,
        a <= b <= v@.len(),
    ensures
        r@ == (if drop_cr {
            strip_cr(v@.subrange(a as int, b as int))
        } else {
            v@.subrange(a as int, b as int)
        }),
{
    let mut e = b;
    if drop_cr && b > a && v[b - 1] == '\r' {
        e = b - 1;
        assert(v@.subrange(a as int, b as int).drop_last() =~= v@.subrange(a as int, e as int));
    }
    let piece = s.substring_char(a, e);
    String::from_str(piece)
}

/// The lines of `s`, as `str::lines` yields them.
pub fn split_lines(s: &str) -> (r: Vec<String>)
    ensures
        r@.map_values(|x: String| x@) == text_lines(s@),
{
    let v = chars_of(s);
    let n = v.len();
    let mut done: Vec<String> = Vec::new();
    if n == 0 {
        assert(done@.map_values(|x: String| x@) =~= text_lines(s@));
        return done;
    }
    let ends_nl = v[n - 1] == '\n';
    let t_end = if ends_nl { n - 1 } else { n };
    let ghost t = v@.take(t_end as int);
    let mut start: usize = 0;
    let mut i: usize = 0;
    proof {
        assert(v@.take(0) =~= Seq::<char>::empty());
        assert(v@.subrange(0, 0) =~= Seq::<char>::empty());
        assert(done@.map_values(|x: String| x@) =~= Seq::<Seq<char>>::empty());
    }
    while i < t_end
        invariant
            v@ == s@,
            n == v@.len(),
            t_end <= n,
            start <= i <= t_end,
            newline_pieces(v@.take(i as int)).len() == done@.len() + 1,
            done@.map_values(|x: String| x@) == newline_pieces(v@.take(i as int)).take(
                done@.len() as int,
            ).map_values(|l: Seq<char>| strip_cr(l)),
            newline_pieces(v@.take(i as int)).last() == v@.subrange(start as int, i as int),
        decreases t_end - i,
    {
        let ghost p = newline_pieces(v@.take(i as int));
        let ghost d: int = done@.len() as int;
        proof {
            assert(v@.take(i + 1).drop_last() =~= v@.take(i as int));
            assert(v@.take(i + 1).last() == v@[i as int]);
        }
        if v[i] == '\n' {
            let line = piece_string(s, &v, start, i, true);
            let ghost old_done = done@;
            done.push(line);
            proof {
                assert(done@.map_values(|x: String| x@) =~= old_done.map_values(|x: String| x@).push(
                    strip_cr(p.last()),
                ));
                let p2 = newline_pieces(v@.take(i + 1));
                assert(p2 == p.push(Seq::<char>::empty()));
                assert(p2.take(d + 1) =~= p.take(d).push(p.last()));
                assert(done@.map_values(|x: String| x@) =~= p2.take(d + 1).map_values(
                    |l: Seq<char>| strip_cr(l),
                ));
                assert(v@.subrange(i + 1, i + 1) =~= Seq::<char>::empty());
            }
            start = i + 1;
        } else {
            proof {
                let p2 = newline_pieces(v@.take(i + 1));
                assert(p2 == p.update(p.len() - 1, p.last().push(v@[i as int])));
                assert(p2.take(d) =~= p.take(d));
                assert(v@.subrange(start as int, i + 1) =~= v@.subrange(start as int, i as int).push(
                    v@[i as int],
                ));
            }
        }
        i = i + 1;
    }
    let ghost p = newline_pieces(v@.take(t_end as int));
    let ghost d: int = done@.len() as int;
    let last = piece_string(s, &v, start, t_end, ends_nl);
    let ghost old_done = done@;
    done.push(last);
    proof {
        assert(done@.map_values(|x: String| x@) =~= old_done.map_values(|x: String| x@).push(
            last@,
        ));
        if ends_nl {
            assert(v@.drop_last() =~= v@.take(t_end as int));
            assert(p.take(d + 1) =~= p);
            assert(done@.map_values(|x: String| x@) =~= p.map_values(|l: Seq<char>| strip_cr(l)));
        } else {
            assert(v@.take(t_end as int) =~= v@);
            assert(done@.map_values(|x: String| x@) =~= p.take(p.len() - 1).map_values(
                |l: Seq<char>| strip_cr(l),
            ).push(p.last()));
        }
    }
    done
}

/// `lines` joined into one text, with a newline between each two.
pub open spec fn joined_lines(lines: Seq<Seq<char>>) -> Seq<char>
    decreases lines.len(),
{
    if lines.len() == 0 {
        Seq::empty()
    } else if lines.len() == 1 {
        lines[0]
    } else {
        joined_lines(lines.drop_last()) + seq!['\n'] + lines.last()
    }
}

/// The contents of a list of strings, as character sequences.
pub open spec fn string_views(s: Seq<String>) -> Seq<Seq<char>> {
    s.map_values(|x: String| x@)
}

/// The lines joined with newlines, as `[String]::join("\n")` does.
pub fn join_lines(lines: &Vec<String>) -> (r: String)
    ensures
        r@ == joined_lines(string_views(lines@)),
{
    let ghost views = string_views(lines@);
    let mut r = String::new();
    let mut i: usize = 0;
    while i < lines.len()
        invariant
            views == string_views(lines@),
            i <= lines@.len(),
            r@ == joined_lines(views.take(i as int)),
        decreases lines@.len() - i,
    {
        assert(views.take(i + 1).drop_last() =~= views.take(i as int));
        if i > 0 {
            push_char(&mut r, '\n');
        }
        r.append(lines[i].as_str());
        proof {
            if i == 0 {
                assert(r@ =~= views.take(1)[0]);
            } else {
                assert(r@ =~= joined_lines(views.take(i as int)) + seq!['\n'] + views.take(i + 1).last());
            }
        }
        i = i + 1;
    }
    assert(views.take(lines@.len() as int) =~= views);
    r
}

/// How many bytes UTF-8 takes for `c`.
pub open spec fn utf8_char_len(c: char) -> nat {
    let u = c as u32;
    if u < 0x80 {
        1
    } else if u < 0x800 {
        2
    } else if u < 0x10000 {
        3
    } else {
        4
    }
}

/// How many bytes `s` takes in UTF-8, what `str::len` gives.
pub open spec fn utf8_len(s: Seq<char>) -> nat
    decreases s.len(),
{
    if s.len() == 0 {
        0
    } else {
        utf8_len(s.drop_last()) + utf8_char_len(s.last())
    }
}

/// Whether `s` takes more than `kb` KB (of 1024 bytes) in UTF-8.
pub fn exceeds_kb(s: &str, kb: usize) -> (r: bool)
    ensures
        r == (utf8_len(s@) > kb * 1024),
{
    let v = chars_of(s);
    let mut total: u128 = 0;
    let mut i: usize = 0;
    while i < v.len()
        invariant
            v@ == s@,
            i <= v@.len(),
            total == utf8_len(v@.take(i as int)),
            total <= 4 * i,
        decreases v@.len() - i,
    {
        assert(v@.take(i + 1).drop_last() =~= v@.take(i as int));
        let u = v[i] as u32;
        let n: u128 = if u < 0x80 {
            1
        } else if u < 0x800 {
            2
        } else if u < 0x10000 {
            3
        } else {
            4
        };
        total = total + n;
        i = i + 1;
    }
    assert(v@.take(v@.len() as int) =~= v@);
    total > (kb as u128) * 1024
}

/// The decimal digit of `d`, below 10.
pub open spec fn digit_char(d: nat) -> char {
    (d + 48) as char
}

/// `n` written in decimal, as `Display` writes it.
pub open spec fn decimal_text(n: nat) -> Seq<char>
    decreases n,
{
    if n < 10 {
        seq![digit_char(n)]
    } else {
        decimal_text(n / 10).push(digit_char(n % 10))
    }
}

/// `n` written in decimal.
pub fn decimal(n: usize) -> (r: String)
    ensures
        r@ == decimal_text(n as nat),
    decreases n,
{
    let d = (n % 10) as u8;
    let c = (48u8 + d) as char;
    if n < 10 {
        let mut r = String::new();
        push_char(&mut r, c);
        assert(r@ =~= seq![digit_char(n as nat)]);
        r
    } else {
        let mut r = decimal(n / 10);
        push_char(&mut r, c);
        r
    }
}

} // verus!
