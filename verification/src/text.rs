//! Character-sequence helpers shared by the text-processing parts of the library.
//!
//! Text is handled as sequences of `char`s: a `&str` is read into a `Vec<char>`,
//! processed, and turned back into a `String` at the end.
use vstd::prelude::*;

verus! {

/// `p` occurs in `s` starting at index `i`.
pub open spec fn occurs_at(s: Seq<char>, i: int, p: Seq<char>) -> bool {
    0 <= i && i + p.len() <= s.len() && s.subrange(i, i + p.len()) == p
}

/// The first index `>= i` at which `p` occurs in `s`.
pub open spec fn find_from(s: Seq<char>, p: Seq<char>, i: int) -> Option<int>
    decreases s.len() - i,
{
    if i < 0 || i + p.len() > s.len() {
        None
    } else if occurs_at(s, i, p) {
        Some(i)
    } else if i >= s.len() {
        None
    } else {
        find_from(s, p, i + 1)
    }
}

/// The first index at which `p` occurs in `s` (what `str::find` returns, counted in chars).
pub open spec fn find_first(s: Seq<char>, p: Seq<char>) -> Option<int> {
    find_from(s, p, 0)
}

/// An optional index seen as a mathematical integer.
pub open spec fn opt_int(o: Option<usize>) -> Option<int> {
    match o {
        Some(x) => Some(x as int),
        None => None,
    }
}

/// `s` starts with `p`.
pub open spec fn starts_with(s: Seq<char>, p: Seq<char>) -> bool {
    p.len() <= s.len() && s.take(p.len() as int) == p
}

/// `s` ends with `p`.
pub open spec fn ends_with(s: Seq<char>, p: Seq<char>) -> bool {
    p.len() <= s.len() && s.skip(s.len() - p.len()) == p
}

/// Unicode `White_Space`, the property that `char::is_whitespace` tests.
pub open spec fn is_ws(c: char) -> bool {
    let n = c as u32;
    (0x09 <= n <= 0x0d) || n == 0x20 || n == 0x85 || n == 0xa0 || n == 0x1680 || (0x2000 <= n
        <= 0x200a) || n == 0x2028 || n == 0x2029 || n == 0x202f || n == 0x205f || n == 0x3000
}

/// An ASCII decimal digit.
pub open spec fn is_digit(c: char) -> bool {
    '0' <= c <= '9'
}

/// The first index `>= i` holding a whitespace character.
pub open spec fn find_ws_from(s: Seq<char>, i: int) -> Option<int>
    decreases s.len() - i,
{
    if i < 0 || i >= s.len() {
        None
    } else if is_ws(s[i]) {
        Some(i)
    } else {
        find_ws_from(s, i + 1)
    }
}

/// Number of whitespace characters at the start of `s`.
pub open spec fn leading_ws(s: Seq<char>) -> nat
    decreases s.len(),
{
    if s.len() > 0 && is_ws(s[0]) {
        1 + leading_ws(s.drop_first())
    } else {
        0
    }
}

/// Number of characters at the end of `s` that satisfy `pred`.
pub open spec fn trailing_count(s: Seq<char>, pred: spec_fn(char) -> bool) -> nat
    decreases s.len(),
{
    if s.len() > 0 && pred(s.last()) {
        1 + trailing_count(s.drop_last(), pred)
    } else {
        0
    }
}

/// `s` with whitespace removed at both ends, as `str::trim` does.
pub open spec fn trim(s: Seq<char>) -> Seq<char> {
    let a = leading_ws(s);
    let rest = s.skip(a as int);
    rest.take(rest.len() - trailing_count(rest, ws_pred()))
}

/// `s` with the characters satisfying `pred` removed at the end.
pub open spec fn trim_end_by(s: Seq<char>, pred: spec_fn(char) -> bool) -> Seq<char> {
    s.take(s.len() - trailing_count(s, pred))
}

/// `s` cut at each occurrence of `c`, as `str::split` does with a `char`.
pub open spec fn split_char(s: Seq<char>, c: char) -> Seq<Seq<char>>
    decreases s.len(),
{
    match find_first(s, seq![c]) {
        Some(i) => if 0 <= i < s.len() {
            seq![s.take(i)] + split_char(s.skip(i + 1), c)
        } else {
            seq![s]
        },
        None => seq![s],
    }
}

/// A line with its carriage return, if any, removed at the end.
pub open spec fn strip_cr(l: Seq<char>) -> Seq<char> {
    if l.len() > 0 && l.last() == '\r' {
        l.drop_last()
    } else {
        l
    }
}

/// The lines of `s`, as `str::lines` gives them.
pub open spec fn lines(s: Seq<char>) -> Seq<Seq<char>> {
    if s.len() == 0 {
        seq![]
    } else {
        let pieces = split_char(s, '\n');
        let pieces = if s.last() == '\n' {
            pieces.drop_last()
        } else {
            pieces
        };
        pieces.map_values(|l: Seq<char>| strip_cr(l))
    }
}

/// The parts joined with `sep` between each two of them.
pub open spec fn join(parts: Seq<Seq<char>>, sep: Seq<char>) -> Seq<char>
    decreases parts.len(),
{
    if parts.len() == 0 {
        seq![]
    } else if parts.len() == 1 {
        parts[0]
    } else {
        join(parts.drop_last(), sep) + sep + parts.last()
    }
}

/// An optional string, taken by its characters.
pub open spec fn opt_view(o: Option<String>) -> Option<Seq<char>> {
    match o {
        Some(s) => Some(s@),
        None => None,
    }
}

/// The characters of `s`, in order.
pub fn chars_of(s: &str) -> (r: Vec<char>)
    ensures
        r@ == s@,
{
    let mut r: Vec<char> = Vec::new();
    for c in it: s.chars()
        invariant
            r@ == it.seq().take(it.index() as int),
            it.seq() == s@,
    {
        r.push(c);
    }
    r
}

/// Appends one character to a `String` (`String::push`).
#[verifier::external_body]
fn push_char(s: &mut String, c: char)
    ensures
        final(s)@ == old(s)@.push(c),
{
    s.push(c);
}

/// A `String` holding the given characters.
pub fn string_from_chars(chars: &Vec<char>) -> (s: String)
    ensures
        s@ == chars@,
{
    let mut s = String::new();
    for i in 0..chars.len()
        invariant
            s@ == chars@.take(i as int),
    {
        push_char(&mut s, chars[i]);
        assert(chars@.take(i + 1) =~= chars@.take(i as int).push(chars@[i as int]));
    }
    assert(chars@.take(chars.len() as int) =~= chars@);
    s
}

/// Whether `c` is whitespace (Unicode `White_Space`).
pub fn is_whitespace(c: char) -> (r: bool)
    ensures
        r == is_ws(c),
{
    let n = c as u32;
    (0x09 <= n && n <= 0x0d) || n == 0x20 || n == 0x85 || n == 0xa0 || n == 0x1680 || (0x2000 <= n
        && n <= 0x200a) || n == 0x2028 || n == 0x2029 || n == 0x202f || n == 0x205f || n == 0x3000
}

/// Whether `p` occurs in `s` at index `i`.
pub fn matches_at(s: &Vec<char>, i: usize, p: &Vec<char>) -> (r: bool)
    ensures
        r == occurs_at(s@, i as int, p@),
{
    if i > s.len() || p.len() > s.len() - i {
        return false;
    }
    let n: usize = s.len();
    let mut k: usize = 0;
    while k < p.len()
        invariant
            n == s@.len(),
            i + p@.len() <= s@.len(),
            k <= p@.len(),
            forall|j: int| 0 <= j < k ==> s@[i + j] == p@[j],
        decreases p@.len() - k,
    {
        assert(i + k < s@.len());
        if s[i + k] != p[k] {
            assert(s@.subrange(i as int, i + p@.len())[k as int] != p@[k as int]);
            return false;
        }
        k = k + 1;
    }
    assert(s@.subrange(i as int, i + p@.len()) =~= p@);
    true
}

/// The first index at which `p` occurs in `s`.
pub fn find(s: &Vec<char>, p: &Vec<char>) -> (r: Option<usize>)
    ensures
        opt_int(r) == find_first(s@, p@),
{
    if p.len() == 0 {
        assert(s@.subrange(0, 0) =~= p@);
        return Some(0);
    }
    let mut i: usize = 0;
    while i <= s.len() && p.len() <= s.len() - i
        invariant
            p@.len() >= 1,
            i <= s@.len() + 1,
            find_from(s@, p@, 0) == find_from(s@, p@, i as int),
        decreases s@.len() + 1 - i,
    {
        if matches_at(s, i, p) {
            return Some(i);
        }
        i = i + 1;
    }
    None
}

/// The first index holding a whitespace character.
pub fn find_whitespace(s: &Vec<char>) -> (r: Option<usize>)
    ensures
        opt_int(r) == find_ws_from(s@, 0),
{
    let mut i: usize = 0;
    while i < s.len()
        invariant
            i <= s@.len(),
            find_ws_from(s@, 0) == find_ws_from(s@, i as int),
        decreases s@.len() - i,
    {
        if is_whitespace(s[i]) {
            return Some(i);
        }
        i = i + 1;
    }
    None
}

/// The characters of `s` from index `a` up to index `b`.
pub fn sub_vec(s: &Vec<char>, a: usize, b: usize) -> (r: Vec<char>)
    requires
        a <= b <= s@.len(),
    ensures
        r@ == s@.subrange(a as int, b as int),
{
    let mut r: Vec<char> = Vec::new();
    let mut i = a;
    while i < b
        invariant
            a <= i <= b <= s@.len(),
            r@ == s@.subrange(a as int, i as int),
        decreases b - i,
    {
        r.push(s[i]);
        i = i + 1;
    }
    r
}

/// Appends the characters of `s` from index `a` up to index `b` to `out`.
pub fn push_range(out: &mut Vec<char>, s: &Vec<char>, a: usize, b: usize)
    requires
        a <= b <= s@.len(),
    ensures
        final(out)@ == old(out)@ + s@.subrange(a as int, b as int),
{
    let mut i = a;
    while i < b
        invariant
            a <= i <= b <= s@.len(),
            out@ == old(out)@ + s@.subrange(a as int, i as int),
        decreases b - i,
    {
        out.push(s[i]);
        i = i + 1;
        assert(out@ =~= old(out)@ + s@.subrange(a as int, i as int));
    }
}

/// Appends all of `s` to `out`.
pub fn push_all(out: &mut Vec<char>, s: &Vec<char>)
    ensures
        final(out)@ == old(out)@ + s@,
{
    push_range(out, s, 0, s.len());
    assert(s@.subrange(0, s@.len() as int) =~= s@);
}


/// Appends the characters of `s` to `out`.
pub fn push_str(out: &mut Vec<char>, s: &str)
    ensures
        final(out)@ == old(out)@ + s@,
{
    let chars = chars_of(s);
    push_all(out, &chars);
}

/// Whether two strings hold the same characters.
pub fn str_eq(a: &str, b: &str) -> (r: bool)
    ensures
        r == (a@ == b@),
{
    let x = chars_of(a);
    let y = chars_of(b);
    if x.len() != y.len() {
        return false;
    }
    for i in 0..x.len()
        invariant
            x@ == a@,
            y@ == b@,
            x.len() == y.len(),
            forall|k: int| 0 <= k < i ==> a@[k] == b@[k],
    {
        if x[i] != y[i] {
            return false;
        }
    }
    assert(a@ =~= b@);
    true
}

/// The characters of each string, in order.
pub open spec fn strings_view(v: Seq<String>) -> Seq<Seq<char>> {
    v.map_values(|s: String| s@)
}

/// The decimal digits of different numbers differ.
pub proof fn lemma_decimal_injective(a: nat, b: nat)
    requires
        decimal(a) == decimal(b),
    ensures
        a == b,
    decreases a,
{
    lemma_decimal_len(a);
    lemma_decimal_len(b);
    if a >= 10 && b >= 10 {
        assert(decimal(a).drop_last() == decimal(b).drop_last());
        assert(decimal(a).drop_last() =~= decimal(a / 10));
        assert(decimal(b).drop_last() =~= decimal(b / 10));
        lemma_decimal_injective(a / 10, b / 10);
        assert(decimal(a).last() == digit_char((a % 10) as int));
        assert(decimal(b).last() == digit_char((b % 10) as int));
        assert(a % 10 == b % 10);
    } else if a < 10 && b < 10 {
        assert(decimal(a)[0] == digit_char(a as int));
        assert(decimal(b)[0] == digit_char(b as int));
    }
}

/// A number has one digit below ten and more from ten on.
pub proof fn lemma_decimal_len(n: nat)
    ensures
        decimal(n).len() >= 1,
        n < 10 <==> decimal(n).len() == 1,
    decreases n,
{
    if n >= 10 {
        lemma_decimal_len(n / 10);
    }
}

/// `c` with an ASCII upper-case letter turned into lower case.
pub open spec fn ascii_lower(c: char) -> char {
    if 'A' <= c && c <= 'Z' {
        ((c as u32) + 32) as char
    } else {
        c
    }
}

/// Whether `a` and `b` are equal when ASCII letters are compared without case.
pub open spec fn eq_ignore_ascii_case(a: Seq<char>, b: Seq<char>) -> bool {
    a.len() == b.len() && forall|i: int| 0 <= i < a.len() ==> ascii_lower(#[trigger] a[i])
        == ascii_lower(b[i])
}

fn ascii_lower_exec(c: char) -> (r: char)
    ensures
        r == ascii_lower(c),
{
    if 'A' <= c && c <= 'Z' {
        let n: u8 = (c as u8) + 32;
        n as char
    } else {
        c
    }
}

/// Whether `a` and `b` are equal when ASCII letters are compared without case.
pub fn str_eq_ignore_ascii_case(a: &str, b: &str) -> (r: bool)
    ensures
        r == eq_ignore_ascii_case(a@, b@),
{
    let x = chars_of(a);
    let y = chars_of(b);
    if x.len() != y.len() {
        return false;
    }
    for i in 0..x.len()
        invariant
            x@ == a@,
            y@ == b@,
            x.len() == y.len(),
            forall|k: int| 0 <= k < i ==> ascii_lower(#[trigger] a@[k]) == ascii_lower(b@[k]),
    {
        if ascii_lower_exec(x[i]) != ascii_lower_exec(y[i]) {
            return false;
        }
    }
    true
}

/// `a` comes strictly before `b` in code point order.
pub open spec fn seq_lt(a: Seq<char>, b: Seq<char>) -> bool
    decreases a.len(),
{
    if a.len() == 0 {
        b.len() > 0
    } else if b.len() == 0 {
        false
    } else if a[0] < b[0] {
        true
    } else if a[0] > b[0] {
        false
    } else {
        seq_lt(a.drop_first(), b.drop_first())
    }
}

/// Code point order is irreflexive and asymmetric.
pub proof fn lemma_seq_lt_asym(a: Seq<char>, b: Seq<char>)
    ensures
        !seq_lt(a, a),
        seq_lt(a, b) ==> !seq_lt(b, a),
    decreases a.len(),
{
    if a.len() > 0 && b.len() > 0 {
        lemma_seq_lt_asym(a.drop_first(), b.drop_first());
    }
    if a.len() > 0 {
        lemma_seq_lt_asym(a.drop_first(), a.drop_first());
    }
}

/// Code point order is transitive.
pub proof fn lemma_seq_lt_trans(a: Seq<char>, b: Seq<char>, c: Seq<char>)
    requires
        seq_lt(a, b),
        seq_lt(b, c),
    ensures
        seq_lt(a, c),
    decreases a.len(),
{
    if a.len() > 0 && b.len() > 0 && c.len() > 0 && a[0] == b[0] && b[0] == c[0] {
        lemma_seq_lt_trans(a.drop_first(), b.drop_first(), c.drop_first());
    }
}

/// Code point order is total: of two different sequences, one comes first.
pub proof fn lemma_seq_lt_total(a: Seq<char>, b: Seq<char>)
    ensures
        a == b || seq_lt(a, b) || seq_lt(b, a),
    decreases a.len(),
{
    if a.len() > 0 && b.len() > 0 && a[0] == b[0] {
        lemma_seq_lt_total(a.drop_first(), b.drop_first());
        if a.drop_first() == b.drop_first() {
            assert forall|i: int| 0 <= i < a.len() implies a[i] == b[i] by {
                if i > 0 {
                    assert(a[i] == a.drop_first()[i - 1]);
                    assert(b[i] == b.drop_first()[i - 1]);
                }
            }
            assert(a =~= b);
        }
    } else if a.len() == 0 && b.len() == 0 {
        assert(a =~= b);
    }
}

/// Whether `a` comes strictly before `b` in code point order.
pub fn str_lt(a: &str, b: &str) -> (r: bool)
    ensures
        r == seq_lt(a@, b@),
{
    let ac = chars_of(a);
    let bc = chars_of(b);
    let mut i: usize = 0;
    assert(ac@.skip(0) =~= ac@);
    assert(bc@.skip(0) =~= bc@);
    while i < ac.len() && i < bc.len()
        invariant
            i <= ac@.len(),
            i <= bc@.len(),
            ac@ == a@,
            bc@ == b@,
            seq_lt(ac@, bc@) == seq_lt(ac@.skip(i as int), bc@.skip(i as int)),
        decreases ac@.len() - i,
    {
        assert(ac@.skip(i as int).drop_first() =~= ac@.skip(i + 1));
        assert(bc@.skip(i as int).drop_first() =~= bc@.skip(i + 1));
        assert(ac@.skip(i as int)[0] == ac@[i as int]);
        assert(bc@.skip(i as int)[0] == bc@[i as int]);
        let x = ac[i];
        let y = bc[i];
        if x < y {
            return true;
        }
        if x > y {
            return false;
        }
        i = i + 1;
    }
    i == ac.len() && i < bc.len()
}

/// The whitespace predicate, as a value.
pub open spec fn ws_pred() -> spec_fn(char) -> bool {
    |c: char| is_ws(c)
}

/// A found index lies inside `s`, where `p` occurs, and no earlier index from `i` on holds `p`.
pub proof fn lemma_find_from(s: Seq<char>, p: Seq<char>, i: int)
    requires
        i >= 0,
    ensures
        find_from(s, p, i) matches Some(j) ==> i <= j && occurs_at(s, j, p) && j + p.len() <= s.len(),
        find_from(s, p, i) matches Some(j) ==> forall|k: int| i <= k < j ==> !occurs_at(s, k, p),
        find_from(s, p, i) is None ==> forall|k: int| i <= k ==> !occurs_at(s, k, p),
    decreases s.len() - i,
{
    if i < 0 || i + p.len() > s.len() {
        assert forall|k: int| i <= k implies !occurs_at(s, k, p) by {}
    } else if occurs_at(s, i, p) {
    } else if i >= s.len() {
        assert forall|k: int| i <= k implies !occurs_at(s, k, p) by {
            if k > i {
            } else {
            }
        }
    } else {
        lemma_find_from(s, p, i + 1);
    }
}

/// The first whitespace index found from `i` lies inside `s`.
pub proof fn lemma_find_ws_from(s: Seq<char>, i: int)
    ensures
        find_ws_from(s, i) matches Some(j) ==> i <= j < s.len() && is_ws(s[j]),
        find_ws_from(s, i) matches Some(j) ==> forall|k: int| i <= k < j ==> !is_ws(s[k]),
    decreases s.len() - i,
{
    if i < 0 || i >= s.len() {
    } else if is_ws(s[i]) {
    } else {
        lemma_find_ws_from(s, i + 1);
    }
}

/// Number of whitespace characters at the start of `s`.
pub fn leading_ws_count(s: &Vec<char>) -> (r: usize)
    ensures
        r == leading_ws(s@),
        r <= s@.len(),
{
    let mut i: usize = 0;
    assert(s@.skip(0) =~= s@);
    while i < s.len() && is_whitespace(s[i])
        invariant
            i <= s@.len(),
            leading_ws(s@) == i + leading_ws(s@.skip(i as int)),
        decreases s@.len() - i,
    {
        assert(s@.skip(i as int).drop_first() =~= s@.skip(i + 1));
        i = i + 1;
    }
    proof { r_leading_done(s@, i as int); }
    i
}

proof fn r_leading_done(s: Seq<char>, i: int)
    requires
        0 <= i <= s.len(),
        i == s.len() || !is_ws(s[i]),
    ensures
        leading_ws(s.skip(i)) == 0,
{
}

/// Number of whitespace characters at the end of `s`.
pub fn trailing_ws_count(s: &Vec<char>) -> (r: usize)
    ensures
        r == trailing_count(s@, ws_pred()),
        r <= s@.len(),
{
    let mut j: usize = s.len();
    assert(s@.take(s@.len() as int) =~= s@);
    while j > 0 && is_whitespace(s[j - 1])
        invariant
            j <= s@.len(),
            trailing_count(s@, ws_pred()) == (s@.len() - j) + trailing_count(s@.take(j as int), ws_pred()),
        decreases j,
    {
        assert(s@.take(j as int).drop_last() =~= s@.take(j - 1));
        j = j - 1;
    }
    s.len() - j
}

/// `s` with whitespace removed at both ends.
pub fn trim_chars(s: &Vec<char>) -> (r: Vec<char>)
    ensures
        r@ == trim(s@),
{
    let a = leading_ws_count(s);
    let rest = sub_vec(s, a, s.len());
    assert(rest@ =~= s@.skip(a as int));
    let t = trailing_ws_count(&rest);
    sub_vec(&rest, 0, rest.len() - t)
}

/// `s` cut at each newline.
pub fn split_newlines(s: &Vec<char>) -> (r: Vec<Vec<char>>)
    ensures
        r@.len() == split_char(s@, '\n').len(),
        forall|i: int| 0 <= i < r@.len() ==> #[trigger] r@[i]@ == split_char(s@, '\n')[i],
{
    let nl: Vec<char> = vec!['\n'];
    assert(nl@ =~= seq!['\n']);
    let mut r: Vec<Vec<char>> = Vec::new();
    let mut start: usize = 0;
    let ghost whole = split_char(s@, '\n');
    assert(s@.skip(0) =~= s@);
    assert(whole =~= r@.map_values(|v: Vec<char>| v@) + split_char(s@.skip(0), '\n'));
    loop
        invariant
            start <= s@.len(),
            nl@ == seq!['\n'],
            whole == split_char(s@, '\n'),
            whole == r@.map_values(|v: Vec<char>| v@) + split_char(s@.skip(start as int), '\n'),
        decreases s@.len() - start,
    {
        let cur = sub_vec(s, start, s.len());
        assert(cur@ =~= s@.skip(start as int));
        let found = find(&cur, &nl);
        proof {
            lemma_find_from(cur@, nl@, 0);
        }
        match found {
            Some(i) => {
                let piece = sub_vec(&cur, 0, i);
                let ghost old_map = r@.map_values(|v: Vec<char>| v@);
                assert(s@.skip(start as int).skip(i + 1) =~= s@.skip(start + i + 1));
                assert(piece@ =~= cur@.take(i as int));
                r.push(piece);
                start = start + i + 1;
                assert(r@.map_values(|v: Vec<char>| v@) =~= old_map.push(piece@));
                assert(whole =~= r@.map_values(|v: Vec<char>| v@) + split_char(
                    s@.skip(start as int),
                    '\n',
                ));
            },
            None => {
                let ghost old_map = r@.map_values(|v: Vec<char>| v@);
                let ghost cv = cur@;
                r.push(cur);
                assert(r@.map_values(|v: Vec<char>| v@) =~= old_map.push(cv));
                assert(whole =~= r@.map_values(|v: Vec<char>| v@));
                assert forall|i: int| 0 <= i < r@.len() implies #[trigger] r@[i]@ == whole[i] by {
                    assert(r@.map_values(|v: Vec<char>| v@)[i] == r@[i]@);
                }
                return r;
            },
        }
    }
}

/// The lines of `s`, as `str::lines` gives them.
pub fn lines_of(s: &Vec<char>) -> (r: Vec<Vec<char>>)
    ensures
        r@.len() == lines(s@).len(),
        forall|i: int| 0 <= i < r@.len() ==> #[trigger] r@[i]@ == lines(s@)[i],
{
    let mut r: Vec<Vec<char>> = Vec::new();
    if s.len() == 0 {
        return r;
    }
    let pieces = split_newlines(s);
    let ghost sp = split_char(s@, '\n');
    let ghost kept = if s@.last() == '\n' { sp.drop_last() } else { sp };
    let count = if s[s.len() - 1] == '\n' && pieces.len() > 0 {
        pieces.len() - 1
    } else {
        pieces.len()
    };
    proof {
        lemma_split_nonempty(s@, '\n');
    }
    let mut k: usize = 0;
    while k < count
        invariant
            count == kept.len(),
            count <= pieces@.len(),
            k <= count,
            pieces@.len() == sp.len(),
            forall|i: int| 0 <= i < pieces@.len() ==> #[trigger] pieces@[i]@ == sp[i],
            kept.len() <= sp.len(),
            forall|i: int| 0 <= i < kept.len() ==> kept[i] == sp[i],
            lines(s@) == kept.map_values(|l: Seq<char>| strip_cr(l)),
            r@.len() == k,
            forall|i: int| 0 <= i < k ==> #[trigger] r@[i]@ == lines(s@)[i],
        decreases count - k,
    {
        let p = &pieces[k];
        let line = if p.len() > 0 && p[p.len() - 1] == '\r' {
            sub_vec(p, 0, p.len() - 1)
        } else {
            sub_vec(p, 0, p.len())
        };
        proof {
            assert(p@.subrange(0, p@.len() as int) =~= p@);
            assert(p@.drop_last() =~= p@.subrange(0, p@.len() - 1));
        }
        r.push(line);
        k = k + 1;
    }
    r
}

/// Splitting never gives an empty list of pieces.
pub proof fn lemma_split_nonempty(s: Seq<char>, c: char)
    ensures
        split_char(s, c).len() >= 1,
    decreases s.len(),
{
    match find_first(s, seq![c]) {
        Some(i) => if 0 <= i < s.len() {
            lemma_split_nonempty(s.skip(i + 1), c);
        } else {
        },
        None => {},
    }
}

/// Appends `parts[k]` to the joined text of the first `k` parts.
pub proof fn lemma_join_step(parts: Seq<Seq<char>>, sep: Seq<char>, k: int)
    requires
        0 <= k < parts.len(),
    ensures
        join(parts.take(k + 1), sep) == if k == 0 {
            parts[0]
        } else {
            join(parts.take(k), sep) + sep + parts[k]
        },
{
    assert(parts.take(k + 1).drop_last() =~= parts.take(k));
}


/// The decimal digit for `d`.
pub open spec fn digit_char(d: int) -> char {
    if d == 0 {
        '0'
    } else if d == 1 {
        '1'
    } else if d == 2 {
        '2'
    } else if d == 3 {
        '3'
    } else if d == 4 {
        '4'
    } else if d == 5 {
        '5'
    } else if d == 6 {
        '6'
    } else if d == 7 {
        '7'
    } else if d == 8 {
        '8'
    } else {
        '9'
    }
}

/// The decimal digits of `n`, without leading zeros.
pub open spec fn decimal(n: nat) -> Seq<char>
    decreases n,
{
    if n < 10 {
        seq![digit_char(n as int)]
    } else {
        decimal(n / 10).push(digit_char((n % 10) as int))
    }
}

fn digit_exec(d: u64) -> (c: char)
    requires
        d < 10,
    ensures
        c == digit_char(d as int),
{
    if d == 0 {
        '0'
    } else if d == 1 {
        '1'
    } else if d == 2 {
        '2'
    } else if d == 3 {
        '3'
    } else if d == 4 {
        '4'
    } else if d == 5 {
        '5'
    } else if d == 6 {
        '6'
    } else if d == 7 {
        '7'
    } else if d == 8 {
        '8'
    } else {
        '9'
    }
}

/// Appends the decimal digits of `n` to `out`.
pub fn push_decimal(out: &mut Vec<char>, n: u64)
    ensures
        final(out)@ == old(out)@ + decimal(n as nat),
    decreases n,
{
    if n < 10 {
        out.push(digit_exec(n));
        assert(final(out)@ =~= old(out)@ + decimal(n as nat));
    } else {
        push_decimal(out, n / 10);
        out.push(digit_exec(n % 10));
        assert(final(out)@ =~= old(out)@ + decimal(n as nat));
    }
}

/// The value of an ASCII decimal digit.
pub open spec fn digit_value(c: char) -> int {
    (c as int) - ('0' as int)
}

/// The value of a sequence of decimal digits, most significant first; 0 for none.
pub open spec fn digits_value(ds: Seq<char>) -> int
    decreases ds.len(),
{
    if ds.len() == 0 {
        0
    } else {
        digits_value(ds.drop_last()) * 10 + digit_value(ds.last())
    }
}

/// Whether every character is an ASCII decimal digit.
pub open spec fn all_digits(ds: Seq<char>) -> bool {
    forall|i: int| 0 <= i < ds.len() ==> is_digit(#[trigger] ds[i])
}

/// What `i32::from_str` gives: an optional `+` or `-`, then one or more ASCII decimal
/// digits, whose value (negated after `-`) lies in the range of `i32`; `None` for any
/// other text.
pub open spec fn parsed_i32(s: Seq<char>) -> Option<i32> {
    let signed = s.len() > 0 && (s[0] == '-' || s[0] == '+');
    let ds = if signed {
        s.drop_first()
    } else {
        s
    };
    let v = if signed && s[0] == '-' {
        -digits_value(ds)
    } else {
        digits_value(ds)
    };
    if ds.len() > 0 && all_digits(ds) && i32::MIN <= v <= i32::MAX {
        Some(v as i32)
    } else {
        None
    }
}

proof fn lemma_digits_value_grows(ds: Seq<char>, k: int)
    requires
        all_digits(ds),
        0 <= k <= ds.len(),
    ensures
        0 <= digits_value(ds.take(k)) <= digits_value(ds),
    decreases ds.len(),
{
    if ds.len() > 0 {
        let front = ds.drop_last();
        assert(all_digits(front)) by {
            assert forall|i: int| 0 <= i < front.len() implies is_digit(#[trigger] front[i]) by {
                assert(front[i] == ds[i]);
            }
        }
        assert(is_digit(ds[ds.len() - 1]));
        lemma_digits_value_grows(front, front.len() as int);
        assert(front.take(front.len() as int) =~= front);
        if k == ds.len() {
            assert(ds.take(k) =~= ds);
        } else {
            lemma_digits_value_grows(front, k);
            assert(ds.take(k) =~= front.take(k));
        }
    } else {
        assert(ds.take(k) =~= ds);
    }
}

/// Parses a decimal `i32` as `i32::from_str` does; see [`parsed_i32`].
pub fn parse_i32(s: &str) -> (r: Option<i32>)
    ensures
        r == parsed_i32(s@),
{
    let cs = chars_of(s);
    let n = cs.len();
    let signed = n > 0 && (cs[0] == '-' || cs[0] == '+');
    let negative = n > 0 && cs[0] == '-';
    let start: usize = if signed {
        1
    } else {
        0
    };
    let ghost ds = if signed {
        s@.drop_first()
    } else {
        s@
    };
    proof {
        if signed {
            assert(ds =~= cs@.skip(1));
        } else {
            assert(ds =~= cs@.skip(0));
        }
    }
    if start >= n {
        return None;
    }
    let mut acc: i64 = 0;
    let mut i: usize = start;
    while i < n
        invariant
            start <= i <= n,
            n == cs.len(),
            cs@ == s@,
            signed == (s@.len() > 0 && (s@[0] == '-' || s@[0] == '+')),
            negative == (s@.len() > 0 && s@[0] == '-'),
            start == (if signed {
                1usize
            } else {
                0usize
            }),
            ds == (if signed {
                s@.drop_first()
            } else {
                s@
            }),
            ds == cs@.skip(start as int),
            forall|j: int| start <= j < i ==> is_digit(#[trigger] cs@[j]),
            acc == digits_value(ds.take(i - start)),
            0 <= acc <= 2147483648,
        decreases n - i,
    {
        proof {
            assert(ds.take(i - start + 1).drop_last() =~= ds.take(i - start));
            assert(ds.take(i - start + 1).last() == cs@[i as int]);
        }
        let c = cs[i];
        let d: i64 = match c {
            '0' => 0,
            '1' => 1,
            '2' => 2,
            '3' => 3,
            '4' => 4,
            '5' => 5,
            '6' => 6,
            '7' => 7,
            '8' => 8,
            '9' => 9,
            _ => {
                proof {
                    assert(!is_digit(ds[i - start]));
                }
                return None;
            },
        };
        let ghost before = acc;
        acc = acc * 10 + d;
        proof {
            assert(digit_value(c) == d);
            assert(is_digit(c));
            assert(ds.take(i - start + 1).last() == c);
            assert(digits_value(ds.take(i - start + 1)) == before * 10 + digit_value(c));
        }
        if acc > 2147483648 {
            proof {
                if all_digits(ds) {
                    lemma_digits_value_grows(ds, i - start + 1);
                }
            }
            return None;
        }
        i = i + 1;
    }
    proof {
        assert(ds.take(n - start) =~= ds);
        assert forall|k: int| 0 <= k < ds.len() implies is_digit(#[trigger] ds[k]) by {
            assert(ds[k] == cs@[k + start]);
        }
    }
    if negative {
        Some((-acc) as i32)
    } else if acc <= 2147483647 {
        Some(acc as i32)
    } else {
        None
    }
}

} // verus!
