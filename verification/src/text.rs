//! Text helpers: comparison, search, replacement and number formatting, each stated
//! over the characters of the text.
use vstd::prelude::*;
use vstd::string::*;
use vstd::utf8::*;

verus! {

/// `String::push` appends one character.
pub assume_specification[ String::push ](s: &mut String, ch: char)
    ensures
        final(s)@ == old(s)@.push(ch),
;

/// The text that `str::to_lowercase` gives for a text.
pub uninterp spec fn lowercase(s: Seq<char>) -> Seq<char>;

/// `str::to_lowercase` depends on the text alone. Of ASCII text it only changes the
/// letters `A` to `Z`; beyond ASCII nothing more is said than that the result is
/// determined by the text.
pub assume_specification[ str::to_lowercase ](s: &str) -> (r: String)
    ensures
        r@ == lowercase(s@),
        is_ascii_chars(s@) ==> r@ == s@.map_values(|c: char| ascii_lower(c)),
;

/// The lower case of an ASCII letter; any other character stays.
pub open spec fn ascii_lower(c: char) -> char {
    if 'A' <= c && c <= 'Z' {
        ((c as u32) + 32) as char
    } else {
        c
    }
}

/// A text in lower case.
pub open spec fn lowered(s: Seq<char>) -> Seq<char> {
    if is_ascii_chars(s) {
        s.map_values(|c: char| ascii_lower(c))
    } else {
        lowercase(s)
    }
}

/// Writes a text in lower case.
pub fn lower(s: &str) -> (r: String)
    ensures
        r@ == lowered(s@),
{
    s.to_lowercase()
}

/// The characters of a text, as a vector.
pub fn chars(s: &str) -> (r: Vec<char>)
    ensures
        r@ == s@,
{
    let mut out: Vec<char> = Vec::new();
    for c in it: s.chars()
        invariant
            it.seq() == s@,
            out@ == s@.take(it.index() as int),
    {
        out.push(c);
    }
    out
}

/// Whether two texts have the same characters.
pub fn same(a: &str, b: &str) -> (r: bool)
    ensures
        r == (a@ == b@),
{
    let x = a.as_bytes();
    let y = b.as_bytes();
    proof {
        encode_utf8_decode_utf8(a@);
        encode_utf8_decode_utf8(b@);
    }
    if x.len() != y.len() {
        return false;
    }
    let mut i: usize = 0;
    while i < x.len()
        invariant
            i <= x.len(),
            x@.len() == y@.len(),
            x@ == encode_utf8(a@),
            y@ == encode_utf8(b@),
            forall|j: int| 0 <= j < i ==> x@[j] == y@[j],
        decreases x.len() - i,
    {
        if x[i] != y[i] {
            return false;
        }
        i = i + 1;
    }
    assert(x@ =~= y@);
    true
}

/// The text without the occurrences of one character.
pub open spec fn without(s: Seq<char>, c: char) -> Seq<char> {
    s.filter(|x: char| x != c)
}

/// Drops every occurrence of `c`.
pub fn remove_char(s: &str, c: char) -> (r: String)
    ensures
        r@ == without(s@, c),
{
    let cs = chars(s);
    let mut out = String::new();
    let mut i: usize = 0;
    proof {
        reveal(Seq::filter);
        assert(cs@.take(0) =~= Seq::<char>::empty());
    }
    while i < cs.len()
        invariant
            i <= cs.len(),
            out@ == without(cs@.take(i as int), c),
        decreases cs.len() - i,
    {
        let x = cs[i];
        proof {
            reveal(Seq::filter);
            assert(cs@.take(i + 1).drop_last() =~= cs@.take(i as int));
        }
        if x != c {
            out.push(x);
        }
        i = i + 1;
    }
    assert(cs@.take(cs@.len() as int) =~= cs@);
    out
}

/// Whether `pat` occurs in `s` from position `i` on.
pub open spec fn occurs_at(s: Seq<char>, pat: Seq<char>, i: int) -> bool {
    0 <= i && i + pat.len() <= s.len() && s.subrange(i, i + pat.len()) == pat
}

/// Whether `pat` occurs somewhere in `s`.
pub open spec fn occurs(s: Seq<char>, pat: Seq<char>) -> bool {
    exists|i: int| #[trigger] occurs_at(s, pat, i)
}

fn matches_at(s: &Vec<char>, pat: &Vec<char>, i: usize) -> (r: bool)
    requires
        i <= s.len(),
    ensures
        r == occurs_at(s@, pat@, i as int),
{
    if pat.len() > s.len() - i {
        return false;
    }
    let mut k: usize = 0;
    while k < pat.len()
        invariant
            k <= pat.len(),
            i + pat.len() <= s.len(),
            forall|j: int| 0 <= j < k ==> s@[i + j] == pat@[j],
        decreases pat.len() - k,
    {
        if s[i + k] != pat[k] {
            assert(s@.subrange(i as int, i + pat@.len())[k as int] != pat@[k as int]);
            return false;
        }
        k = k + 1;
    }
    assert(s@.subrange(i as int, i + pat@.len()) =~= pat@);
    true
}

/// Whether `pat` occurs in `s`.
pub fn contains(s: &str, pat: &str) -> (r: bool)
    ensures
        r == occurs(s@, pat@),
{
    let cs = chars(s);
    let ps = chars(pat);
    let mut i: usize = 0;
    while i < cs.len()
        invariant
            i <= cs.len(),
            cs@ == s@,
            ps@ == pat@,
            forall|j: int| 0 <= j < i ==> !occurs_at(s@, pat@, j),
        decreases cs.len() - i,
    {
        if matches_at(&cs, &ps, i) {
            return true;
        }
        i = i + 1;
    }
    matches_at(&cs, &ps, i)
}

/// Whether one character occurs in `s`.
pub fn contains_char(s: &str, c: char) -> (r: bool)
    ensures
        r == s@.contains(c),
{
    let cs = chars(s);
    let mut i: usize = 0;
    while i < cs.len()
        invariant
            i <= cs.len(),
            cs@ == s@,
            forall|j: int| 0 <= j < i ==> s@[j] != c,
        decreases cs.len() - i,
    {
        if cs[i] == c {
            return true;
        }
        i = i + 1;
    }
    false
}

/// Whether `s` begins with `pat`.
pub fn starts_with(s: &str, pat: &str) -> (r: bool)
    ensures
        r == occurs_at(s@, pat@, 0),
{
    let cs = chars(s);
    let ps = chars(pat);
    matches_at(&cs, &ps, 0)
}

/// The text with the occurrences of `pat`, found from the left and not overlapping,
/// replaced by `with`.
pub open spec fn replaced(s: Seq<char>, pat: Seq<char>, with: Seq<char>) -> Seq<char>
    decreases s.len(),
{
    if pat.len() == 0 || s.len() == 0 {
        s
    } else if occurs_at(s, pat, 0) {
        with + replaced(s.skip(pat.len() as int), pat, with)
    } else {
        seq![s[0]] + replaced(s.skip(1), pat, with)
    }
}

/// Replaces every occurrence of a text that is not empty.
pub fn replace(s: &str, pat: &str, with: &str) -> (r: String)
    requires
        pat@.len() > 0,
    ensures
        r@ == replaced(s@, pat@, with@),
{
    let cs = chars(s);
    let ps = chars(pat);
    let mut out = String::new();
    let mut i: usize = 0;
    assert(cs@.skip(0) =~= cs@);
    while i < cs.len()
        invariant
            i <= cs.len(),
            ps@.len() > 0,
            cs@ == s@,
            ps@ == pat@,
            out@ + replaced(s@.skip(i as int), pat@, with@) == replaced(s@, pat@, with@),
        decreases cs.len() - i,
    {
        let ghost rest = s@.skip(i as int);
        proof {
            if occurs_at(s@, pat@, i as int) || occurs_at(rest, pat@, 0) {
                assert(rest.subrange(0, pat@.len() as int) =~= s@.subrange(i as int, i + pat@.len()));
            }
        }
        if matches_at(&cs, &ps, i) {
            let ghost before = out@;
            out.append(with);
            proof {
                assert(occurs_at(rest, pat@, 0));
                assert(rest.skip(pat@.len() as int) =~= s@.skip(i + pat@.len()));
                assert(before + (with@ + replaced(s@.skip(i + pat@.len()), pat@, with@))
                    =~= out@ + replaced(s@.skip(i + pat@.len()), pat@, with@));
            }
            i = i + ps.len();
        } else {
            let ghost before = out@;
            out.push(cs[i]);
            proof {
                assert(!occurs_at(rest, pat@, 0));
                assert(rest.skip(1) =~= s@.skip(i + 1));
                assert(before + (seq![rest[0]] + replaced(s@.skip(i + 1), pat@, with@))
                    =~= out@ + replaced(s@.skip(i + 1), pat@, with@));
            }
            i = i + 1;
        }
    }
    assert(s@.skip(i as int) =~= Seq::<char>::empty());
    assert(out@ + Seq::<char>::empty() =~= out@);
    out
}

/// What some texts say.
pub open spec fn views(list: Seq<String>) -> Seq<Seq<char>> {
    list.map_values(|s: String| s@)
}

/// Texts one after the other, with a separator between them.
pub open spec fn joined(parts: Seq<Seq<char>>, sep: Seq<char>) -> Seq<char>
    decreases parts.len(),
{
    if parts.len() == 0 {
        Seq::empty()
    } else if parts.len() == 1 {
        parts[0]
    } else {
        joined(parts.drop_last(), sep) + sep + parts.last()
    }
}

/// Writes texts one after the other, with a separator between them.
pub fn join(parts: &Vec<String>, sep: &str) -> (r: String)
    ensures
        r@ == joined(views(parts@), sep@),
{
    let ghost all = views(parts@);
    let mut out = String::new();
    let mut i: usize = 0;
    while i < parts.len()
        invariant
            i <= parts.len(),
            all == views(parts@),
            out@ == joined(all.take(i as int), sep@),
        decreases parts.len() - i,
    {
        let ghost next = all.take(i + 1);
        let ghost before = out@;
        assert(next.drop_last() =~= all.take(i as int));
        if i > 0 {
            out.append(sep);
        }
        out.append(parts[i].as_str());
        proof {
            if i == 0 {
                assert(out@ =~= next[0]);
            } else {
                assert(out@ =~= before + sep@ + next.last());
            }
        }
        i = i + 1;
    }
    assert(all.take(all.len() as int) =~= all);
    out
}

/// Whether `s` ends with `pat`.
pub open spec fn ends_with(s: Seq<char>, pat: Seq<char>) -> bool {
    occurs_at(s, pat, s.len() - pat.len())
}

/// The text without the occurrences of `pat` at its end.
pub open spec fn trimmed_end(s: Seq<char>, pat: Seq<char>) -> Seq<char>
    decreases s.len(),
{
    if pat.len() > 0 && ends_with(s, pat) {
        trimmed_end(s.take(s.len() - pat.len()), pat)
    } else {
        s
    }
}

/// Drops a text that is not empty from the end, as often as it stands there.
pub fn trim_end(s: &str, pat: &str) -> (r: String)
    requires
        pat@.len() > 0,
    ensures
        r@ == trimmed_end(s@, pat@),
{
    let cs = chars(s);
    let ps = chars(pat);
    let mut n: usize = cs.len();
    assert(cs@.take(n as int) =~= cs@);
    while n >= ps.len() && matches_at(&cs, &ps, n - ps.len())
        invariant
            n <= cs.len(),
            ps@.len() > 0,
            cs@ == s@,
            ps@ == pat@,
            trimmed_end(s@, pat@) == trimmed_end(s@.take(n as int), pat@),
        decreases n,
    {
        proof {
            let kept = s@.take(n as int);
            let at = n - pat@.len();
            assert(kept.subrange(at, n as int) =~= s@.subrange(at, n as int));
            assert(ends_with(kept, pat@));
            assert(kept.take(at) =~= s@.take(at));
        }
        n = n - ps.len();
    }
    proof {
        let kept = s@.take(n as int);
        if ends_with(kept, pat@) {
            let at = n - pat@.len();
            assert(kept.subrange(at, n as int) =~= s@.subrange(at, n as int));
        }
    }
    let mut out = String::new();
    let mut i: usize = 0;
    while i < n
        invariant
            i <= n <= cs.len(),
            out@ == cs@.take(i as int),
        decreases n - i,
    {
        out.push(cs[i]);
        assert(cs@.take(i + 1) =~= cs@.take(i as int).push(cs@[i as int]));
        i = i + 1;
    }
    out
}

/// `a` comes before `b` in the order of their code points, which is also the order of
/// their bytes.
pub open spec fn comes_before(a: Seq<char>, b: Seq<char>) -> bool
    decreases a.len(),
{
    if b.len() == 0 {
        false
    } else if a.len() == 0 {
        true
    } else if a[0] != b[0] {
        a[0] < b[0]
    } else {
        comes_before(a.skip(1), b.skip(1))
    }
}

/// Whether `a` comes before `b`.
pub fn before(a: &str, b: &str) -> (r: bool)
    ensures
        r == comes_before(a@, b@),
{
    let x = chars(a);
    let y = chars(b);
    let mut i: usize = 0;
    assert(x@.skip(0) =~= x@);
    assert(y@.skip(0) =~= y@);
    while i < x.len() && i < y.len()
        invariant
            i <= x.len(),
            i <= y.len(),
            comes_before(a@, b@) == comes_before(x@.skip(i as int), y@.skip(i as int)),
        decreases x.len() - i,
    {
        if x[i] != y[i] {
            return x[i] < y[i];
        }
        assert(x@.skip(i as int).skip(1) =~= x@.skip(i + 1));
        assert(y@.skip(i as int).skip(1) =~= y@.skip(i + 1));
        i = i + 1;
    }
    i < y.len()
}

/// The order of texts is strict: no text comes before itself.
pub proof fn law_order_is_strict(a: Seq<char>)
    ensures
        !comes_before(a, a),
    decreases a.len(),
{
    if a.len() > 0 {
        law_order_is_strict(a.skip(1));
    }
}

/// The order of texts is transitive.
pub proof fn law_order_is_transitive(a: Seq<char>, b: Seq<char>, c: Seq<char>)
    requires
        comes_before(a, b),
        comes_before(b, c),
    ensures
        comes_before(a, c),
    decreases a.len(),
{
    if a.len() > 0 && a[0] == b[0] && b[0] == c[0] {
        law_order_is_transitive(a.skip(1), b.skip(1), c.skip(1));
    }
}

/// Of two different texts one comes before the other.
pub proof fn law_order_is_total(a: Seq<char>, b: Seq<char>)
    requires
        a != b,
    ensures
        comes_before(a, b) || comes_before(b, a),
    decreases a.len(),
{
    if a.len() == 0 && b.len() == 0 {
        assert(a =~= b);
    } else if a.len() > 0 && b.len() > 0 && a[0] == b[0] {
        if a.skip(1) == b.skip(1) {
            assert(a =~= seq![a[0]] + a.skip(1));
            assert(b =~= seq![b[0]] + b.skip(1));
        }
        law_order_is_total(a.skip(1), b.skip(1));
    }
}

/// The character of a decimal digit.
pub open spec fn digit(n: nat) -> char {
    (n + '0' as nat) as char
}

/// A number in decimal notation.
pub open spec fn decimal(n: nat) -> Seq<char>
    decreases n,
{
    if n < 10 {
        seq![digit(n)]
    } else {
        decimal(n / 10).push(digit(n % 10))
    }
}

/// Writes a number in decimal notation.
pub fn decimal_text(n: u64) -> (r: String)
    ensures
        r@ == decimal(n as nat),
    decreases n,
{
    let mut out = if n < 10 {
        String::new()
    } else {
        decimal_text(n / 10)
    };
    let c: u8 = (n % 10) as u8 + 48u8;
    out.push(c as char);
    assert(out@ =~= decimal(n as nat));
    out
}

/// The text up to a character, or all of it where the character does not occur.
pub open spec fn up_to(s: Seq<char>, c: char) -> Seq<char>
    decreases s.len(),
{
    if s.len() == 0 || s[0] == c {
        Seq::empty()
    } else {
        seq![s[0]] + up_to(s.skip(1), c)
    }
}

/// The first line of a text, without the line feed that ends it or the carriage return
/// and line feed that do. A text without a line feed is one line.
pub open spec fn line_one(s: Seq<char>) -> Seq<char> {
    let l = up_to(s, '\n');
    if l.len() < s.len() && l.len() > 0 && l.last() == '\r' {
        l.drop_last()
    } else {
        l
    }
}

/// The first line of a text.
pub fn first_line(s: &str) -> (r: String)
    ensures
        r@ == line_one(s@),
{
    let cs = chars(s);
    let mut n: usize = 0;
    assert(cs@.skip(0) =~= cs@);
    assert(cs@.take(0) + up_to(cs@, '\n') =~= up_to(cs@, '\n'));
    while n < cs.len() && cs[n] != '\n'
        invariant
            n <= cs.len(),
            up_to(cs@, '\n') == cs@.take(n as int) + up_to(cs@.skip(n as int), '\n'),
        decreases cs.len() - n,
    {
        proof {
            assert(cs@.skip(n as int).skip(1) =~= cs@.skip(n + 1));
            assert(cs@.take(n as int) + (seq![cs@[n as int]] + up_to(cs@.skip(n + 1), '\n'))
                =~= cs@.take(n + 1) + up_to(cs@.skip(n + 1), '\n'));
        }
        n = n + 1;
    }
    assert(up_to(cs@, '\n') =~= cs@.take(n as int));
    let end: usize = if n < cs.len() && n > 0 && cs[n - 1] == '\r' {
        n - 1
    } else {
        n
    };
    let mut out = String::new();
    let mut i: usize = 0;
    while i < end
        invariant
            i <= end <= cs.len(),
            out@ == cs@.take(i as int),
        decreases end - i,
    {
        out.push(cs[i]);
        assert(cs@.take(i + 1) =~= cs@.take(i as int).push(cs@[i as int]));
        i = i + 1;
    }
    assert(cs@.take(end as int) =~= line_one(s@));
    out
}

/// `std::str::from_utf8`: the text that bytes encode, or nothing where they are not
/// UTF-8.
#[verifier::external_body]
pub(crate) fn decode(bytes: &[u8]) -> (r: Option<String>)
    ensures
        r is Some <==> valid_utf8(bytes@),
        r matches Some(s) ==> s@ == decode_utf8(bytes@),
{
    std::str::from_utf8(bytes).ok().map(|s| s.to_string())
}

/// Dropping a character goes through a text one character at a time: the dropped one
/// goes, any other stays.
pub proof fn law_without_goes_by_character(s: Seq<char>, x: char, c: char)
    ensures
        without(Seq::empty(), c) == Seq::<char>::empty(),
        without(s.push(x), c) == (if x == c {
            without(s, c)
        } else {
            without(s, c).push(x)
        }),
        !without(s, c).contains(c),
    decreases s.len(),
{
    reveal(Seq::filter);
    assert(s.push(x).drop_last() =~= s);
    assert(without(Seq::empty(), c) =~= Seq::<char>::empty());
    if s.len() > 0 {
        let rest = s.drop_last();
        law_without_goes_by_character(rest, s.last(), c);
        assert(rest.push(s.last()) =~= s);
        if s.last() != c {
            assert forall|i: int| 0 <= i < without(s, c).len() implies without(s, c)[i] != c by {
                if i < without(rest, c).len() {
                    assert(without(rest, c).contains(without(rest, c)[i]));
                }
            }
        }
    } else {
        assert(s =~= Seq::empty());
    }
}

/// A text occurs in another exactly if that one is made up of it and of what stands
/// before and behind it.
pub proof fn law_occurrence_splits_the_text(s: Seq<char>, pat: Seq<char>, a: Seq<char>, b: Seq<char>)
    ensures
        occurs(a + pat + b, pat),
        occurs_at(a + pat + b, pat, a.len() as int),
        occurs_at(pat + b, pat, 0),
        occurs(s, pat) ==> exists|x: Seq<char>, y: Seq<char>| s == #[trigger] (x + pat + y),
        forall|i: int| #[trigger]
            occurs_at(s, pat, i) ==> 0 <= i && s == s.take(i) + pat + s.skip(i + pat.len()),
{
    assert((a + pat + b).subrange(a.len() as int, (a.len() + pat.len()) as int) =~= pat);
    assert(occurs_at(a + pat + b, pat, a.len() as int));
    assert((pat + b).subrange(0, pat.len() as int) =~= pat);
    assert forall|i: int| #[trigger] occurs_at(s, pat, i) implies 0 <= i && s == s.take(i) + pat
        + s.skip(i + pat.len()) by {
        let mid = s.subrange(i, i + pat.len());
        assert forall|k: int| 0 <= k < pat.len() implies s[i + k] == pat[k] by {
            assert(mid[k] == pat[k]);
        }
        assert(s =~= s.take(i) + pat + s.skip(i + pat.len()));
    }
    if occurs(s, pat) {
        let i = choose|i: int| #[trigger] occurs_at(s, pat, i);
        let x = s.take(i);
        let y = s.skip(i + pat.len());
        assert(s == x + pat + y);
    }
}

/// Replacement goes from the left: an occurrence at the front is replaced as a whole,
/// any other first character stays, and the rest is treated alike.
pub proof fn law_replacement_goes_from_the_left(
    x: char,
    rest: Seq<char>,
    pat: Seq<char>,
    with: Seq<char>,
)
    requires
        pat.len() > 0,
    ensures
        replaced(Seq::empty(), pat, with) == Seq::<char>::empty(),
        replaced(pat + rest, pat, with) == with + replaced(rest, pat, with),
        !(exists|b: Seq<char>| seq![x] + rest == #[trigger] (pat + b)) ==> replaced(
            seq![x] + rest,
            pat,
            with,
        ) == seq![x] + replaced(rest, pat, with),
{
    assert((pat + rest).subrange(0, pat.len() as int) =~= pat);
    assert(occurs_at(pat + rest, pat, 0));
    assert((pat + rest).skip(pat.len() as int) =~= rest);
    let s = seq![x] + rest;
    assert(s.skip(1) =~= rest);
    if !(exists|b: Seq<char>| s == #[trigger] (pat + b)) {
        if occurs_at(s, pat, 0) {
            law_occurrence_splits_the_text(s, pat, Seq::empty(), Seq::empty());
            assert(s =~= pat + s.skip(pat.len() as int)) by {
                assert(s == s.take(0) + pat + s.skip(0int + pat.len()));
                assert(s.take(0) + pat =~= pat);
            }
        }
    }
}

/// Joining puts a separator between every two texts, and nowhere else.
pub proof fn law_joining_separates_neighbours(parts: Seq<Seq<char>>, x: Seq<char>, sep: Seq<char>)
    ensures
        joined(Seq::empty(), sep) == Seq::<char>::empty(),
        joined(seq![x], sep) == x,
        parts.len() > 0 ==> joined(parts.push(x), sep) == joined(parts, sep) + sep + x,
{
    assert(parts.push(x).drop_last() =~= parts);
}

/// What is left of a text when something is dropped from its end does not end in that
/// any more, and each occurrence at the end is dropped.
pub proof fn law_trimming_takes_every_end(s: Seq<char>, pat: Seq<char>)
    requires
        pat.len() > 0,
    ensures
        trimmed_end(s + pat, pat) == trimmed_end(s, pat),
        !(exists|a: Seq<char>| s == #[trigger] (a + pat)) ==> trimmed_end(s, pat) == s,
{
    let t = s + pat;
    assert(t.subrange(t.len() - pat.len(), t.len() as int) =~= pat);
    assert(ends_with(t, pat));
    assert(t.take(t.len() - pat.len()) =~= s);
    if !(exists|a: Seq<char>| s == #[trigger] (a + pat)) {
        if ends_with(s, pat) {
            law_occurrence_splits_the_text(s, pat, Seq::empty(), Seq::empty());
            let i = s.len() - pat.len();
            assert(occurs_at(s, pat, i));
            assert(s =~= s.take(i) + pat);
        }
    }
}

/// Two texts are ordered by the first place at which they differ, and a text comes
/// before what it begins.
pub proof fn law_order_goes_by_the_first_difference(
    p: Seq<char>,
    x: char,
    a: Seq<char>,
    y: char,
    b: Seq<char>,
)
    ensures
        x < y ==> comes_before(p + seq![x] + a, p + seq![y] + b),
        comes_before(p, p + seq![y] + b),
        !comes_before(p + seq![y] + b, p),
    decreases p.len(),
{
    let u = p + seq![x] + a;
    let v = p + seq![y] + b;
    if p.len() > 0 {
        let q = p.skip(1);
        law_order_goes_by_the_first_difference(q, x, a, y, b);
        assert(u.skip(1) =~= q + seq![x] + a);
        assert(v.skip(1) =~= q + seq![y] + b);
    }
}

/// Decimal notation has the value of the number: a digit for the units, behind the
/// digits of the tens.
pub proof fn law_decimal_has_the_digits(n: nat, d: nat)
    requires
        d < 10,
    ensures
        decimal(d).len() == 1 && decimal(d)[0] as int == 48 + d,
        n > 0 ==> decimal(10 * n + d) == decimal(n) + decimal(d),
{
    assert((10 * n + d) / 10 == n);
    assert((10 * n + d) % 10 == d);
    if n > 0 {
        assert(decimal(10 * n + d) =~= decimal(n) + decimal(d));
    }
}

proof fn lemma_up_to(l: Seq<char>, rest: Seq<char>)
    requires
        !l.contains('\n'),
    ensures
        up_to(l + seq!['\n'] + rest, '\n') == l,
        up_to(l, '\n') == l,
    decreases l.len(),
{
    let s = l + seq!['\n'] + rest;
    if l.len() > 0 {
        assert(l[0] != '\n');
        assert forall|i: int| 0 <= i < l.skip(1).len() implies l.skip(1)[i] != '\n' by {
            assert(l[i + 1] != '\n');
        }
        lemma_up_to(l.skip(1), rest);
        assert(s.skip(1) =~= l.skip(1) + seq!['\n'] + rest);
        assert(seq![l[0]] + l.skip(1) =~= l);
    } else {
        assert(up_to(s, '\n') =~= l);
        assert(up_to(l, '\n') =~= l);
    }
}

/// The first line is what stands before the first line end, whether that is a line feed
/// or a carriage return and a line feed, or the whole text where there is none.
pub proof fn law_first_line_ends_at_the_line_end(l: Seq<char>, rest: Seq<char>)
    requires
        !l.contains('\n'),
    ensures
        line_one(l) == l,
        line_one(l + seq!['\r', '\n'] + rest) == l,
        l.len() == 0 || l.last() != '\r' ==> line_one(l + seq!['\n'] + rest) == l,
{
    lemma_up_to(l, rest);
    let c = l + seq!['\r'];
    assert forall|i: int| 0 <= i < c.len() implies c[i] != '\n' by {
        if i < l.len() {
            assert(l.contains(l[i]));
        }
    }
    lemma_up_to(c, rest);
    assert(l + seq!['\r', '\n'] + rest =~= c + seq!['\n'] + rest);
    assert(c.drop_last() =~= l);
}

/// In lower case an ASCII text has its capital letters replaced by small ones, and is
/// otherwise the same.
pub proof fn law_lower_case_changes_capitals_only(s: Seq<char>, i: int)
    requires
        is_ascii_chars(s),
        0 <= i < s.len(),
    ensures
        lowered(s).len() == s.len(),
        65 <= s[i] as int <= 90 ==> lowered(s)[i] as int == s[i] as int + 32,
        !(65 <= s[i] as int <= 90) ==> lowered(s)[i] == s[i],
{
}

/// Some texts say what each of them says, in order.
pub proof fn law_texts_say_what_they_hold(list: Seq<String>, i: int)
    requires
        0 <= i < list.len(),
    ensures
        views(list).len() == list.len(),
        views(list)[i] == list[i]@,
{
}

} // verus!
