//! The logic behind the input dialogs: reading MAME input sequences, labelling host input
//! codes, and grouping the machine's inputs into the rows of the dialog.
pub mod menu;
pub mod multi;
pub mod primary;
pub mod xy;

use vstd::prelude::*;

use crate::status::{
    Input, SeqType, InputDevice, InputDeviceClass, InputDeviceClassName, InputDeviceItem,
};
use crate::text::{
    chars_of, find, find_from, is_digit, join, lemma_find_from, lemma_join_step,
    decimal, opt_int, push_all, split_char, string_from_chars, sub_vec,
};

verus! {

/// The modifier at the end of a named sequence token (`..._RIGHT_SWITCH` and the like).
#[derive(Debug, PartialEq, Eq)]
pub enum SeqTokenModifier {
    LeftSwitch,
    UpSwitch,
    RightSwitch,
    DownSwitch,
    Relative,
    Absolute,
    Unknown(String),
}

/// A token of a MAME input sequence.
#[derive(Debug, PartialEq, Eq)]
pub enum SeqToken {
    Named(String, Option<SeqTokenModifier>),
    Or,
    Not,
    Default,
}

/// What a modifier is, with its text as a character sequence.
pub enum ModifierView {
    LeftSwitch,
    UpSwitch,
    RightSwitch,
    DownSwitch,
    Relative,
    Absolute,
    Unknown(Seq<char>),
}

/// What a token is, with its text as a character sequence.
pub enum TokenView {
    Named(Seq<char>, Option<ModifierView>),
    Or,
    Not,
    Default,
}

impl View for SeqTokenModifier {
    type V = ModifierView;

    open spec fn view(&self) -> ModifierView {
        match self {
            SeqTokenModifier::LeftSwitch => ModifierView::LeftSwitch,
            SeqTokenModifier::UpSwitch => ModifierView::UpSwitch,
            SeqTokenModifier::RightSwitch => ModifierView::RightSwitch,
            SeqTokenModifier::DownSwitch => ModifierView::DownSwitch,
            SeqTokenModifier::Relative => ModifierView::Relative,
            SeqTokenModifier::Absolute => ModifierView::Absolute,
            SeqTokenModifier::Unknown(s) => ModifierView::Unknown(s@),
        }
    }
}

impl View for SeqToken {
    type V = TokenView;

    open spec fn view(&self) -> TokenView {
        match self {
            SeqToken::Named(s, m) => TokenView::Named(
                s@,
                match m {
                    Some(m) => Some(m@),
                    None => None,
                },
            ),
            SeqToken::Or => TokenView::Or,
            SeqToken::Not => TokenView::Not,
            SeqToken::Default => TokenView::Default,
        }
    }
}

/// Every character of `s` is an ASCII digit.
pub open spec fn all_digits(s: Seq<char>) -> bool {
    forall|i: int| 0 <= i < s.len() ==> is_digit(s[i])
}

/// Where the modifier of a named token starts (the separating underscore): after the second
/// word, or after the third when the second is a number (`JOYCODE_1_XAXIS_RIGHT_SWITCH`).
pub open spec fn modifier_sep(t: Seq<char>) -> Option<int> {
    match find_from(t, seq!['_'], 0) {
        None => None,
        Some(a) => match find_from(t, seq!['_'], a + 1) {
            None => None,
            Some(b) => if all_digits(t.subrange(a + 1, b)) {
                find_from(t, seq!['_'], b + 1)
            } else {
                Some(b)
            },
        },
    }
}

/// The modifier named by `m`.
pub open spec fn modifier_of(m: Seq<char>) -> ModifierView {
    if m == seq!['L', 'E', 'F', 'T', '_', 'S', 'W', 'I', 'T', 'C', 'H'] {
        ModifierView::LeftSwitch
    } else if m == seq!['U', 'P', '_', 'S', 'W', 'I', 'T', 'C', 'H'] {
        ModifierView::UpSwitch
    } else if m == seq!['R', 'I', 'G', 'H', 'T', '_', 'S', 'W', 'I', 'T', 'C', 'H'] {
        ModifierView::RightSwitch
    } else if m == seq!['D', 'O', 'W', 'N', '_', 'S', 'W', 'I', 'T', 'C', 'H'] {
        ModifierView::DownSwitch
    } else if m == seq!['R', 'E', 'L', 'A', 'T', 'I', 'V', 'E'] {
        ModifierView::Relative
    } else if m == seq!['A', 'B', 'S', 'O', 'L', 'U', 'T', 'E'] {
        ModifierView::Absolute
    } else {
        ModifierView::Unknown(m)
    }
}

/// The token that the text `t` stands for.
pub open spec fn token_of(t: Seq<char>) -> TokenView {
    if t == seq!['O', 'R'] {
        TokenView::Or
    } else if t == seq!['N', 'O', 'T'] {
        TokenView::Not
    } else if t == seq!['D', 'E', 'F', 'A', 'U', 'L', 'T'] {
        TokenView::Default
    } else {
        match modifier_sep(t) {
            Some(m) => {
                let rest = t.skip(m + 1);
                TokenView::Named(
                    t.take(m),
                    if rest.len() == 0 {
                        None
                    } else {
                        Some(modifier_of(rest))
                    },
                )
            },
            None => TokenView::Named(t, None),
        }
    }
}

/// `ts` without its leading `OR` tokens.
pub open spec fn skip_leading_or(ts: Seq<TokenView>) -> Seq<TokenView>
    decreases ts.len(),
{
    if ts.len() > 0 && ts[0] == TokenView::Or {
        skip_leading_or(ts.drop_first())
    } else {
        ts
    }
}

/// The tokens of the input sequence text `s`.
pub open spec fn tokens(s: Seq<char>) -> Seq<TokenView> {
    skip_leading_or(split_char(s, ' ').map_values(|t: Seq<char>| token_of(t)))
}

/// The views of a list of tokens.
pub open spec fn tokens_view(ts: Seq<SeqToken>) -> Seq<TokenView> {
    ts.map_values(|t: SeqToken| t@)
}

/// The codes table as character sequences: code, then label.
pub open spec fn codes_view(codes: Seq<(String, String)>) -> Seq<(Seq<char>, Seq<char>)> {
    codes.map_values(|p: (String, String)| (p.0@, p.1@))
}

/// The label of `key` in `codes`; a later entry for the same code replaces an earlier one.
pub open spec fn lookup_code(codes: Seq<(Seq<char>, Seq<char>)>, key: Seq<char>) -> Option<Seq<char>>
    decreases codes.len(),
{
    if codes.len() == 0 {
        None
    } else if codes.last().0 == key {
        Some(codes.last().1)
    } else {
        lookup_code(codes.drop_last(), key)
    }
}

/// The words that describe a token.
pub open spec fn token_words(t: TokenView, codes: Seq<(Seq<char>, Seq<char>)>) -> Seq<Seq<char>> {
    match t {
        TokenView::Named(text, m) => {
            let label = match lookup_code(codes, text) {
                Some(l) => l,
                None => text,
            };
            match m {
                None => seq![label],
                Some(ModifierView::LeftSwitch) => seq![label, seq!['L', 'e', 'f', 't']],
                Some(ModifierView::UpSwitch) => seq![label, seq!['U', 'p']],
                Some(ModifierView::RightSwitch) => seq![label, seq!['R', 'i', 'g', 'h', 't']],
                Some(ModifierView::DownSwitch) => seq![label, seq!['D', 'o', 'w', 'n']],
                Some(ModifierView::Relative) => seq![
                    label,
                    seq!['R', 'e', 'l', 'a', 't', 'i', 'v', 'e'],
                ],
                Some(ModifierView::Absolute) => seq![
                    label,
                    seq!['A', 'b', 's', 'o', 'l', 'u', 't', 'e'],
                ],
                Some(ModifierView::Unknown(x)) => seq![label, x],
            }
        },
        TokenView::Or => seq![seq!['o', 'r']],
        TokenView::Not => seq![seq!['n', 'o', 't']],
        TokenView::Default => seq![seq!['d', 'e', 'f', 'a', 'u', 'l', 't']],
    }
}

proof fn lemma_modifier_sep(t: Seq<char>)
    ensures
        modifier_sep(t) matches Some(m) ==> 0 <= m < t.len() && t[m] == '_',
{
    lemma_find_from(t, seq!['_'], 0);
    if let Some(a) = find_from(t, seq!['_'], 0) {
        lemma_find_from(t, seq!['_'], a + 1);
        if let Some(b) = find_from(t, seq!['_'], a + 1) {
            lemma_find_from(t, seq!['_'], b + 1);
        }
    }
    if let Some(m) = modifier_sep(t) {
        assert(t.subrange(m, m + 1)[0] == t[m]);
    }
}

/// A named token is its text, then (where it has a modifier) an underscore and the
/// modifier's own text: reading a token loses nothing. An unknown modifier keeps that
/// text, and `OR`, `NOT` and `DEFAULT` are never read as named tokens.
pub proof fn lemma_token_round_trip(t: Seq<char>)
    ensures
        token_of(t) matches TokenView::Named(name, m) ==> {
            &&& t != seq!['O', 'R'] && t != seq!['N', 'O', 'T'] && t != seq!['D', 'E', 'F', 'A', 'U', 'L', 'T']
            &&& match m {
                Some(md) => exists|mt: Seq<char>|
                    #![trigger modifier_of(mt)]
                    mt.len() > 0 && t == name + seq!['_'] + mt && modifier_of(mt) == md && (md matches ModifierView::Unknown(
                        x,
                    ) ==> x == mt),
                None => t == name || t == name + seq!['_'],
            }
        },
{
    lemma_modifier_sep(t);
    if let Some(m) = modifier_sep(t) {
        let rest = t.skip(m + 1);
        if rest.len() == 0 {
            assert(t =~= t.take(m) + seq!['_']);
        } else {
            assert(t =~= t.take(m) + seq!['_'] + rest);
            assert(modifier_of(rest) == modifier_of(rest));
        }
    }
}

/// The word in ASCII capitals.
pub open spec fn capitals(w: Seq<char>) -> Seq<char> {
    w.map_values(|c: char| crate::dialogs::file::ascii_upper(c))
}

/// A named token with a modifier is described by two words: its label (from the codes
/// table, else its own text), then a word for the modifier. That word, in capitals, gives
/// back the modifier's text: followed by `_SWITCH` for the four switches (`LEFT_SWITCH` is
/// described "Left", `DOWN_SWITCH` "Down", and so on), alone for `RELATIVE` and
/// `ABSOLUTE`; an unknown modifier is its own word. So different modifiers get different
/// words.
pub proof fn lemma_modifier_words(text: Seq<char>, mt: Seq<char>, codes: Seq<(Seq<char>, Seq<char>)>)
    ensures
        ({
            let w = token_words(TokenView::Named(text, Some(modifier_of(mt))), codes);
            let sw = seq!['_', 'S', 'W', 'I', 'T', 'C', 'H'];
            &&& w.len() == 2
            &&& w[0] == (match lookup_code(codes, text) {
                Some(l) => l,
                None => text,
            })
            &&& (modifier_of(mt) is LeftSwitch || modifier_of(mt) is UpSwitch || modifier_of(mt) is RightSwitch
                || modifier_of(mt) is DownSwitch) ==> capitals(w[1]) + sw == mt
            &&& (modifier_of(mt) is Relative || modifier_of(mt) is Absolute) ==> capitals(w[1]) == mt
            &&& modifier_of(mt) is Unknown ==> w[1] == mt
        }),
{
    let w = token_words(TokenView::Named(text, Some(modifier_of(mt))), codes);
    let sw = seq!['_', 'S', 'W', 'I', 'T', 'C', 'H'];
    if modifier_of(mt) is LeftSwitch {
        assert(capitals(seq!['L', 'e', 'f', 't']) + sw =~= mt);
    } else if modifier_of(mt) is UpSwitch {
        assert(capitals(seq!['U', 'p']) + sw =~= mt);
    } else if modifier_of(mt) is RightSwitch {
        assert(capitals(seq!['R', 'i', 'g', 'h', 't']) + sw =~= mt);
    } else if modifier_of(mt) is DownSwitch {
        assert(capitals(seq!['D', 'o', 'w', 'n']) + sw =~= mt);
    } else if modifier_of(mt) is Relative {
        assert(capitals(seq!['R', 'e', 'l', 'a', 't', 'i', 'v', 'e']) =~= mt);
    } else if modifier_of(mt) is Absolute {
        assert(capitals(seq!['A', 'b', 's', 'o', 'l', 'u', 't', 'e']) =~= mt);
    }
}

/// The words that describe a list of tokens, in order.
pub open spec fn all_words(ts: Seq<TokenView>, codes: Seq<(Seq<char>, Seq<char>)>) -> Seq<Seq<char>>
    decreases ts.len(),
{
    if ts.len() == 0 {
        seq![]
    } else {
        all_words(ts.drop_last(), codes) + token_words(ts.last(), codes)
    }
}

/// The human-readable description of the input sequence text `s`.
pub open spec fn seq_desc(s: Seq<char>, codes: Seq<(Seq<char>, Seq<char>)>) -> Seq<char> {
    join(all_words(tokens(s), codes), seq![' '])
}

/// Whether two character sequences are equal.
pub fn chars_eq(a: &Vec<char>, b: &Vec<char>) -> (r: bool)
    ensures
        r == (a@ == b@),
{
    if a.len() != b.len() {
        return false;
    }
    let mut i: usize = 0;
    while i < a.len()
        invariant
            i <= a@.len(),
            a@.len() == b@.len(),
            forall|k: int| 0 <= k < i ==> a@[k] == b@[k],
        decreases a@.len() - i,
    {
        if a[i] != b[i] {
            return false;
        }
        i = i + 1;
    }
    assert(a@ =~= b@);
    true
}


fn word_u_left_switch() -> (r: Vec<char>)
    ensures
        r@ == seq!['L', 'E', 'F', 'T', '_', 'S', 'W', 'I', 'T', 'C', 'H'],
{
    let r = vec!['L', 'E', 'F', 'T', '_', 'S', 'W', 'I', 'T', 'C', 'H'];
    assert(r@ =~= seq!['L', 'E', 'F', 'T', '_', 'S', 'W', 'I', 'T', 'C', 'H']);
    r
}

fn word_u_up_switch() -> (r: Vec<char>)
    ensures
        r@ == seq!['U', 'P', '_', 'S', 'W', 'I', 'T', 'C', 'H'],
{
    let r = vec!['U', 'P', '_', 'S', 'W', 'I', 'T', 'C', 'H'];
    assert(r@ =~= seq!['U', 'P', '_', 'S', 'W', 'I', 'T', 'C', 'H']);
    r
}

fn word_u_right_switch() -> (r: Vec<char>)
    ensures
        r@ == seq!['R', 'I', 'G', 'H', 'T', '_', 'S', 'W', 'I', 'T', 'C', 'H'],
{
    let r = vec!['R', 'I', 'G', 'H', 'T', '_', 'S', 'W', 'I', 'T', 'C', 'H'];
    assert(r@ =~= seq!['R', 'I', 'G', 'H', 'T', '_', 'S', 'W', 'I', 'T', 'C', 'H']);
    r
}

fn word_u_down_switch() -> (r: Vec<char>)
    ensures
        r@ == seq!['D', 'O', 'W', 'N', '_', 'S', 'W', 'I', 'T', 'C', 'H'],
{
    let r = vec!['D', 'O', 'W', 'N', '_', 'S', 'W', 'I', 'T', 'C', 'H'];
    assert(r@ =~= seq!['D', 'O', 'W', 'N', '_', 'S', 'W', 'I', 'T', 'C', 'H']);
    r
}

fn word_u_relative() -> (r: Vec<char>)
    ensures
        r@ == seq!['R', 'E', 'L', 'A', 'T', 'I', 'V', 'E'],
{
    let r = vec!['R', 'E', 'L', 'A', 'T', 'I', 'V', 'E'];
    assert(r@ =~= seq!['R', 'E', 'L', 'A', 'T', 'I', 'V', 'E']);
    r
}

fn word_u_absolute() -> (r: Vec<char>)
    ensures
        r@ == seq!['A', 'B', 'S', 'O', 'L', 'U', 'T', 'E'],
{
    let r = vec!['A', 'B', 'S', 'O', 'L', 'U', 'T', 'E'];
    assert(r@ =~= seq!['A', 'B', 'S', 'O', 'L', 'U', 'T', 'E']);
    r
}

fn word_u_or() -> (r: Vec<char>)
    ensures
        r@ == seq!['O', 'R'],
{
    let r = vec!['O', 'R'];
    assert(r@ =~= seq!['O', 'R']);
    r
}

fn word_u_not() -> (r: Vec<char>)
    ensures
        r@ == seq!['N', 'O', 'T'],
{
    let r = vec!['N', 'O', 'T'];
    assert(r@ =~= seq!['N', 'O', 'T']);
    r
}

fn word_u_default() -> (r: Vec<char>)
    ensures
        r@ == seq!['D', 'E', 'F', 'A', 'U', 'L', 'T'],
{
    let r = vec!['D', 'E', 'F', 'A', 'U', 'L', 'T'];
    assert(r@ =~= seq!['D', 'E', 'F', 'A', 'U', 'L', 'T']);
    r
}

fn word_left() -> (r: Vec<char>)
    ensures
        r@ == seq!['L', 'e', 'f', 't'],
{
    let r = vec!['L', 'e', 'f', 't'];
    assert(r@ =~= seq!['L', 'e', 'f', 't']);
    r
}

fn word_up() -> (r: Vec<char>)
    ensures
        r@ == seq!['U', 'p'],
{
    let r = vec!['U', 'p'];
    assert(r@ =~= seq!['U', 'p']);
    r
}

fn word_right() -> (r: Vec<char>)
    ensures
        r@ == seq!['R', 'i', 'g', 'h', 't'],
{
    let r = vec!['R', 'i', 'g', 'h', 't'];
    assert(r@ =~= seq!['R', 'i', 'g', 'h', 't']);
    r
}

fn word_down() -> (r: Vec<char>)
    ensures
        r@ == seq!['D', 'o', 'w', 'n'],
{
    let r = vec!['D', 'o', 'w', 'n'];
    assert(r@ =~= seq!['D', 'o', 'w', 'n']);
    r
}

fn word_relative() -> (r: Vec<char>)
    ensures
        r@ == seq!['R', 'e', 'l', 'a', 't', 'i', 'v', 'e'],
{
    let r = vec!['R', 'e', 'l', 'a', 't', 'i', 'v', 'e'];
    assert(r@ =~= seq!['R', 'e', 'l', 'a', 't', 'i', 'v', 'e']);
    r
}

fn word_absolute() -> (r: Vec<char>)
    ensures
        r@ == seq!['A', 'b', 's', 'o', 'l', 'u', 't', 'e'],
{
    let r = vec!['A', 'b', 's', 'o', 'l', 'u', 't', 'e'];
    assert(r@ =~= seq!['A', 'b', 's', 'o', 'l', 'u', 't', 'e']);
    r
}

fn word_or() -> (r: Vec<char>)
    ensures
        r@ == seq!['o', 'r'],
{
    let r = vec!['o', 'r'];
    assert(r@ =~= seq!['o', 'r']);
    r
}

fn word_not() -> (r: Vec<char>)
    ensures
        r@ == seq!['n', 'o', 't'],
{
    let r = vec!['n', 'o', 't'];
    assert(r@ =~= seq!['n', 'o', 't']);
    r
}

fn word_default() -> (r: Vec<char>)
    ensures
        r@ == seq!['d', 'e', 'f', 'a', 'u', 'l', 't'],
{
    let r = vec!['d', 'e', 'f', 'a', 'u', 'l', 't'];
    assert(r@ =~= seq!['d', 'e', 'f', 'a', 'u', 'l', 't']);
    r
}

fn all_ascii_digits(t: &Vec<char>, a: usize, b: usize) -> (r: bool)
    requires
        a <= b <= t@.len(),
    ensures
        r == all_digits(t@.subrange(a as int, b as int)),
{
    let mut i = a;
    while i < b
        invariant
            a <= i <= b <= t@.len(),
            forall|k: int| a <= k < i ==> is_digit(t@[k]),
        decreases b - i,
    {
        if !('0' <= t[i] && t[i] <= '9') {
            assert(!is_digit(t@.subrange(a as int, b as int)[i - a]));
            return false;
        }
        i = i + 1;
    }
    assert forall|k: int| 0 <= k < b - a implies is_digit(t@.subrange(a as int, b as int)[k]) by {
        assert(t@.subrange(a as int, b as int)[k] == t@[a + k]);
    }
    true
}

/// The first underscore at index `from` or later.
fn find_underscore_from(t: &Vec<char>, from: usize) -> (r: Option<usize>)
    requires
        from <= t@.len(),
    ensures
        opt_int(r) == find_from(t@, seq!['_'], from as int),
        r matches Some(i) ==> from <= i < t@.len(),
{
    let mut i = from;
    while i < t.len()
        invariant
            from <= i <= t@.len(),
            find_from(t@, seq!['_'], from as int) == find_from(t@, seq!['_'], i as int),
        decreases t@.len() - i,
    {
        if t[i] == '_' {
            assert(t@.subrange(i as int, i + 1) =~= seq!['_']);
            return Some(i);
        }
        assert(t@.subrange(i as int, i + 1)[0] == t@[i as int]);
        i = i + 1;
    }
    None
}

fn modifier_sep_exec(t: &Vec<char>) -> (r: Option<usize>)
    ensures
        opt_int(r) == modifier_sep(t@),
{
    proof {
        lemma_find_from(t@, seq!['_'], 0);
    }
    let n = t.len();
    match find_underscore_from(t, 0) {
        None => None,
        Some(a) => {
            proof {
                lemma_find_from(t@, seq!['_'], a + 1);
            }
            assert(a < n);
            match find_underscore_from(t, a + 1) {
                None => None,
                Some(b) => {
                    assert(b < n);
                    if all_ascii_digits(t, a + 1, b) {
                        find_underscore_from(t, b + 1)
                    } else {
                        Some(b)
                    }
                },
            }
        },
    }
}

fn modifier_from_chars(m: Vec<char>) -> (r: SeqTokenModifier)
    ensures
        r@ == modifier_of(m@),
{
    if chars_eq(&m, &word_u_left_switch()) {
        SeqTokenModifier::LeftSwitch
    } else if chars_eq(&m, &word_u_up_switch()) {
        SeqTokenModifier::UpSwitch
    } else if chars_eq(&m, &word_u_right_switch()) {
        SeqTokenModifier::RightSwitch
    } else if chars_eq(&m, &word_u_down_switch()) {
        SeqTokenModifier::DownSwitch
    } else if chars_eq(&m, &word_u_relative()) {
        SeqTokenModifier::Relative
    } else if chars_eq(&m, &word_u_absolute()) {
        SeqTokenModifier::Absolute
    } else {
        SeqTokenModifier::Unknown(string_from_chars(&m))
    }
}

/// The token that the text `t` stands for.
pub fn token_from_chars(t: &Vec<char>) -> (r: SeqToken)
    ensures
        r@ == token_of(t@),
{
    if chars_eq(t, &word_u_or()) {
        SeqToken::Or
    } else if chars_eq(t, &word_u_not()) {
        SeqToken::Not
    } else if chars_eq(t, &word_u_default()) {
        SeqToken::Default
    } else {
        let n = t.len();
        match modifier_sep_exec(t) {
            Some(m) => {
                proof {
                    lemma_modifier_sep_bound(t@);
                }
                assert(m < n);
                let base = sub_vec(t, 0, m);
                let rest = sub_vec(t, m + 1, t.len());
                assert(base@ =~= t@.take(m as int));
                assert(rest@ =~= t@.skip(m + 1));
                let modifier = if rest.len() == 0 {
                    None
                } else {
                    Some(modifier_from_chars(rest))
                };
                SeqToken::Named(string_from_chars(&base), modifier)
            },
            None => SeqToken::Named(string_from_chars(t), None),
        }
    }
}

proof fn lemma_modifier_sep_bound(t: Seq<char>)
    ensures
        modifier_sep(t) matches Some(m) ==> 0 <= m < t.len(),
{
    lemma_find_from(t, seq!['_'], 0);
    if let Some(a) = find_from(t, seq!['_'], 0) {
        lemma_find_from(t, seq!['_'], a + 1);
        if let Some(b) = find_from(t, seq!['_'], a + 1) {
            lemma_find_from(t, seq!['_'], b + 1);
        }
    }
}

/// Cuts `s` at each space.
fn split_spaces(s: &Vec<char>) -> (r: Vec<Vec<char>>)
    ensures
        r@.len() == split_char(s@, ' ').len(),
        forall|i: int| 0 <= i < r@.len() ==> #[trigger] r@[i]@ == split_char(s@, ' ')[i],
{
    let sp: Vec<char> = vec![' '];
    assert(sp@ =~= seq![' ']);
    let mut r: Vec<Vec<char>> = Vec::new();
    let mut start: usize = 0;
    let ghost whole = split_char(s@, ' ');
    assert(s@.skip(0) =~= s@);
    assert(whole =~= r@.map_values(|v: Vec<char>| v@) + split_char(s@.skip(0), ' '));
    loop
        invariant
            start <= s@.len(),
            sp@ == seq![' '],
            whole == split_char(s@, ' '),
            whole == r@.map_values(|v: Vec<char>| v@) + split_char(s@.skip(start as int), ' '),
        decreases s@.len() - start,
    {
        let cur = sub_vec(s, start, s.len());
        assert(cur@ =~= s@.skip(start as int));
        let found = find(&cur, &sp);
        proof {
            lemma_find_from(cur@, sp@, 0);
        }
        match found {
            Some(i) => {
                let piece = sub_vec(&cur, 0, i);
                let ghost old_map = r@.map_values(|v: Vec<char>| v@);
                assert(s@.skip(start as int).skip(i + 1) =~= s@.skip(start + i + 1));
                assert(piece@ =~= cur@.take(i as int));
                r.push(piece);
                start = start + i + 1;
                assert(r@.map_values(|v: Vec<char>| v@) =~= old_map.push(piece@));
                assert(whole =~= r@.map_values(|v: Vec<char>| v@) + split_char(
                    s@.skip(start as int),
                    ' ',
                ));
            },
            None => {
                let ghost old_map = r@.map_values(|v: Vec<char>| v@);
                let ghost cv = cur@;
                r.push(cur);
                assert(r@.map_values(|v: Vec<char>| v@) =~= old_map.push(cv));
                assert(whole =~= r@.map_values(|v: Vec<char>| v@));
                assert forall|i: int| 0 <= i < r@.len() implies #[trigger] r@[i]@ == whole[i] by {
                    assert(r@.map_values(|v: Vec<char>| v@)[i] == r@[i]@);
                }
                return r;
            },
        }
    }
}

proof fn lemma_skip_leading_or(ts: Seq<TokenView>, k: int)
    requires
        0 <= k <= ts.len(),
        forall|i: int| 0 <= i < k ==> ts[i] == TokenView::Or,
    ensures
        skip_leading_or(ts) == skip_leading_or(ts.skip(k)),
    decreases k,
{
    if k > 0 {
        assert(ts.drop_first().skip(k - 1) =~= ts.skip(k));
        lemma_skip_leading_or(ts.drop_first(), k - 1);
    } else {
        assert(ts.skip(0) =~= ts);
    }
}

/// The tokens of a MAME input sequence text such as `KEYCODE_A OR JOYCODE_1_XAXIS_RIGHT_SWITCH`,
/// without leading `OR`s.
pub fn seq_tokens_from_string(s: &str) -> (r: Vec<SeqToken>)
    ensures
        tokens_view(r@) == tokens(s@),
{
    let chars = chars_of(s);
    let pieces = split_spaces(&chars);
    let ghost all = split_char(s@, ' ').map_values(|t: Seq<char>| token_of(t));
    let mut r: Vec<SeqToken> = Vec::new();
    let mut i: usize = 0;
    let mut skipping = true;
    let mut first_kept: usize = 0;
    while i < pieces.len()
        invariant
            i <= pieces@.len(),
            pieces@.len() == split_char(s@, ' ').len(),
            forall|k: int| 0 <= k < pieces@.len() ==> #[trigger] pieces@[k]@ == split_char(s@, ' ')[k],
            all == split_char(s@, ' ').map_values(|t: Seq<char>| token_of(t)),
            skipping ==> r@.len() == 0 && first_kept == i,
            first_kept <= i,
            forall|k: int| 0 <= k < first_kept ==> all[k] == TokenView::Or,
            !skipping ==> first_kept < i && all[first_kept as int] != TokenView::Or,
            tokens_view(r@) == all.subrange(first_kept as int, i as int),
        decreases pieces@.len() - i,
    {
        let tok = token_from_chars(&pieces[i]);
        assert(all[i as int] == tok@);
        let is_or = match tok {
            SeqToken::Or => true,
            _ => false,
        };
        if skipping && is_or {
            first_kept = i + 1;
        } else {
            let ghost before = tokens_view(r@);
            skipping = false;
            r.push(tok);
            assert(tokens_view(r@) =~= before.push(all[i as int]));
        }
        i = i + 1;
        assert(tokens_view(r@) =~= all.subrange(first_kept as int, i as int));
    }
    proof {
        lemma_skip_leading_or(all, first_kept as int);
        assert(all.subrange(first_kept as int, all.len() as int) =~= all.skip(first_kept as int));
        if first_kept < all.len() {
            assert(all.skip(first_kept as int)[0] == all[first_kept as int]);
        }
    }
    r
}

/// The label of `key` in `codes`, if it has one.
pub fn lookup_code_exec(codes: &Vec<(String, String)>, key: &Vec<char>) -> (r: Option<Vec<char>>)
    ensures
        match r {
            Some(l) => lookup_code(codes_view(codes@), key@) == Some(l@),
            None => lookup_code(codes_view(codes@), key@) is None,
        },
{
    let mut i = codes.len();
    assert(codes_view(codes@).take(codes@.len() as int) =~= codes_view(codes@));
    while i > 0
        invariant
            i <= codes@.len(),
            lookup_code(codes_view(codes@), key@) == lookup_code(codes_view(codes@).take(i as int), key@),
        decreases i,
    {
        let k = chars_of(codes[i - 1].0.as_str());
        assert(codes_view(codes@).take(i as int).drop_last() =~= codes_view(codes@).take(i - 1));
        if chars_eq(&k, key) {
            return Some(chars_of(codes[i - 1].1.as_str()));
        }
        i = i - 1;
    }
    assert(codes_view(codes@).take(codes@.len() as int) =~= codes_view(codes@));
    None
}

fn push_token_words(
    words: &mut Vec<Vec<char>>,
    tok: &SeqToken,
    codes: &Vec<(String, String)>,
)
    ensures
        final(words)@.map_values(|v: Vec<char>| v@) == old(words)@.map_values(|v: Vec<char>| v@)
            + token_words(tok@, codes_view(codes@)),
{
    let ghost before = old(words)@.map_values(|v: Vec<char>| v@);
    match tok {
        SeqToken::Named(text, m) => {
            let t = chars_of(text.as_str());
            let label = match lookup_code_exec(codes, &t) {
                Some(l) => l,
                None => t,
            };
            words.push(label);
            match m {
                None => {},
                Some(SeqTokenModifier::LeftSwitch) => words.push(word_left()),
                Some(SeqTokenModifier::UpSwitch) => words.push(word_up()),
                Some(SeqTokenModifier::RightSwitch) => words.push(word_right()),
                Some(SeqTokenModifier::DownSwitch) => words.push(word_down()),
                Some(SeqTokenModifier::Relative) => words.push(word_relative()),
                Some(SeqTokenModifier::Absolute) => words.push(word_absolute()),
                Some(SeqTokenModifier::Unknown(x)) => words.push(chars_of(x.as_str())),
            }
        },
        SeqToken::Or => words.push(word_or()),
        SeqToken::Not => words.push(word_not()),
        SeqToken::Default => words.push(word_default()),
    }
    assert(words@.map_values(|v: Vec<char>| v@) =~= before + token_words(tok@, codes_view(codes@)));
}

/// Joins `words` with `sep` between each two of them.
pub fn join_words(words: &Vec<Vec<char>>, sep: &Vec<char>) -> (r: Vec<char>)
    ensures
        r@ == join(words@.map_values(|v: Vec<char>| v@), sep@),
{
    let ghost parts = words@.map_values(|v: Vec<char>| v@);
    let mut out: Vec<char> = Vec::new();
    let mut k: usize = 0;
    while k < words.len()
        invariant
            k <= words@.len(),
            parts == words@.map_values(|v: Vec<char>| v@),
            out@ == join(parts.take(k as int), sep@),
        decreases words@.len() - k,
    {
        proof {
            lemma_join_step(parts, sep@, k as int);
        }
        if k > 0 {
            push_all(&mut out, sep);
        }
        push_all(&mut out, &words[k]);
        assert(parts[k as int] == words@[k as int]@);
        assert(out@ =~= join(parts.take(k + 1), sep@));
        k = k + 1;
    }
    assert(parts.take(words@.len() as int) =~= parts);
    out
}

/// The human-readable description of a MAME input sequence text: codes are replaced by their
/// labels, modifiers are spelled out (`Left`, `Right`, ...), and `OR`, `NOT`, `DEFAULT` are
/// lowercased.
pub fn seq_tokens_desc_from_string(s: &str, codes: &Vec<(String, String)>) -> (r: String)
    ensures
        r@ == seq_desc(s@, codes_view(codes@)),
{
    let toks = seq_tokens_from_string(s);
    let ghost tv = tokens_view(toks@);
    let mut words: Vec<Vec<char>> = Vec::new();
    let mut i: usize = 0;
    while i < toks.len()
        invariant
            i <= toks@.len(),
            tv == tokens_view(toks@),
            tv == tokens(s@),
            words@.map_values(|v: Vec<char>| v@) == all_words(tv.take(i as int), codes_view(codes@)),
        decreases toks@.len() - i,
    {
        assert(tv.take(i + 1).drop_last() =~= tv.take(i as int));
        push_token_words(&mut words, &toks[i], codes);
        i = i + 1;
    }
    assert(tv.take(toks@.len() as int) =~= tv);
    let sp = vec![' '];
    assert(sp@ =~= seq![' ']);
    let out = join_words(&words, &sp);
    string_from_chars(&out)
}


/// The axis of an analog input.
#[derive(Clone, Copy, Debug, PartialEq, Eq, Structural)]
pub enum InputAxis {
    X,
    Y,
}

/// An optional string as an optional character sequence.
pub open spec fn opt_str(o: Option<String>) -> Option<Seq<char>> {
    match o {
        Some(s) => Some(s@),
        None => None,
    }
}

/// The prefix that labels the devices of a class: `Kbd` (only when there are several
/// keyboards), `Joy`, `Gun`, `Mouse`, or the class's own name.
pub open spec fn class_prefix(dc: InputDeviceClass) -> Option<Seq<char>> {
    match dc.name {
        InputDeviceClassName::Keyboard => if dc.devices@.len() > 1 {
            Some(seq!['K', 'b', 'd'])
        } else {
            None
        },
        InputDeviceClassName::Joystick => Some(seq!['J', 'o', 'y']),
        InputDeviceClassName::Lightgun => Some(seq!['G', 'u', 'n']),
        InputDeviceClassName::Mouse => Some(seq!['M', 'o', 'u', 's', 'e']),
        InputDeviceClassName::Other(x) => Some(x@),
    }
}

impl InputDeviceClass {
    /// The prefix that labels the devices of this class.
    pub fn prefix(&self) -> (r: Option<String>)
        ensures
            opt_str(r) == class_prefix(*self),
    {
        match &self.name {
            InputDeviceClassName::Keyboard => if self.devices.len() > 1 {
                Some(string_from_chars(&word_kbd()))
            } else {
                None
            },
            InputDeviceClassName::Joystick => Some(string_from_chars(&word_joy())),
            InputDeviceClassName::Lightgun => Some(string_from_chars(&word_gun())),
            InputDeviceClassName::Mouse => Some(string_from_chars(&word_mouse())),
            InputDeviceClassName::Other(x) => Some(crate::prefs::string_copy(x)),
        }
    }
}

fn word_kbd() -> (r: Vec<char>)
    ensures
        r@ == seq!['K', 'b', 'd'],
{
    let r = vec!['K', 'b', 'd'];
    assert(r@ =~= seq!['K', 'b', 'd']);
    r
}

fn word_joy() -> (r: Vec<char>)
    ensures
        r@ == seq!['J', 'o', 'y'],
{
    let r = vec!['J', 'o', 'y'];
    assert(r@ =~= seq!['J', 'o', 'y']);
    r
}

fn word_gun() -> (r: Vec<char>)
    ensures
        r@ == seq!['G', 'u', 'n'],
{
    let r = vec!['G', 'u', 'n'];
    assert(r@ =~= seq!['G', 'u', 'n']);
    r
}

fn word_mouse() -> (r: Vec<char>)
    ensures
        r@ == seq!['M', 'o', 'u', 's', 'e'],
{
    let r = vec!['M', 'o', 'u', 's', 'e'];
    assert(r@ =~= seq!['M', 'o', 'u', 's', 'e']);
    r
}

/// The label of a device control: `PREFIX #N NAME`, with N counted from one, or just the
/// control's name when the class has no prefix.
pub open spec fn code_label(prefix: Option<Seq<char>>, devindex: u32, name: Seq<char>) -> Seq<char> {
    match prefix {
        Some(p) => p + seq![' ', '#'] + decimal((devindex + 1) as nat) + seq![' '] + name,
        None => name,
    }
}

/// The codes table entries of a device's controls, in order.
pub open spec fn item_entries(prefix: Option<Seq<char>>, devindex: u32, items: Seq<InputDeviceItem>) -> Seq<
    (Seq<char>, Seq<char>),
> {
    items.map_values(|it: InputDeviceItem| (it.code@, code_label(prefix, devindex, it.name@)))
}

/// The codes table entries of a list of devices, in order.
pub open spec fn device_entries(prefix: Option<Seq<char>>, devices: Seq<InputDevice>) -> Seq<
    (Seq<char>, Seq<char>),
>
    decreases devices.len(),
{
    if devices.len() == 0 {
        seq![]
    } else {
        device_entries(prefix, devices.drop_last()) + item_entries(
            prefix,
            devices.last().devindex,
            devices.last().items@,
        )
    }
}

/// The codes table of a list of device classes: for each control, its code and its label.
pub open spec fn codes_of(classes: Seq<InputDeviceClass>) -> Seq<(Seq<char>, Seq<char>)>
    decreases classes.len(),
{
    if classes.len() == 0 {
        seq![]
    } else {
        codes_of(classes.drop_last()) + device_entries(
            class_prefix(classes.last()),
            classes.last().devices@,
        )
    }
}

fn label_for(prefix: &Option<String>, devindex: u32, name: &String) -> (r: String)
    ensures
        r@ == code_label(opt_str(*prefix), devindex, name@),
{
    match prefix {
        Some(p) => {
            let mut out = chars_of(p.as_str());
            out.push(' ');
            out.push('#');
            crate::text::push_decimal(&mut out, devindex as u64 + 1);
            out.push(' ');
            push_all(&mut out, &chars_of(name.as_str()));
            assert(out@ =~= code_label(opt_str(*prefix), devindex, name@));
            string_from_chars(&out)
        },
        None => crate::prefs::string_copy(name),
    }
}

/// The codes table of the host's input devices: for each control, its code and the label shown
/// for it; a later control with the same code replaces an earlier one in lookups.
pub fn build_codes(input_device_classes: &[InputDeviceClass]) -> (r: Vec<(String, String)>)
    ensures
        codes_view(r@) == codes_of(input_device_classes@),
{
    let mut r: Vec<(String, String)> = Vec::new();
    let mut c: usize = 0;
    while c < input_device_classes.len()
        invariant
            c <= input_device_classes@.len(),
            codes_view(r@) == codes_of(input_device_classes@.take(c as int)),
        decreases input_device_classes@.len() - c,
    {
        let dc = &input_device_classes[c];
        let prefix = dc.prefix();
        let ghost base = codes_view(r@);
        let mut d: usize = 0;
        while d < dc.devices.len()
            invariant
                d <= dc.devices@.len(),
                opt_str(prefix) == class_prefix(*dc),
                codes_view(r@) == base + device_entries(class_prefix(*dc), dc.devices@.take(d as int)),
            decreases dc.devices@.len() - d,
        {
            let device = &dc.devices[d];
            let ghost base2 = codes_view(r@);
            let mut i: usize = 0;
            while i < device.items.len()
                invariant
                    i <= device.items@.len(),
                    opt_str(prefix) == class_prefix(*dc),
                    codes_view(r@) == base2 + item_entries(
                        class_prefix(*dc),
                        device.devindex,
                        device.items@.take(i as int),
                    ),
                decreases device.items@.len() - i,
            {
                let item = &device.items[i];
                let label = label_for(&prefix, device.devindex, &item.name);
                let ghost before = codes_view(r@);
                r.push((crate::prefs::string_copy(&item.code), label));
                assert(codes_view(r@) =~= before.push((item.code@, label@)));
                assert(item_entries(class_prefix(*dc), device.devindex, device.items@.take(i + 1))
                    =~= item_entries(class_prefix(*dc), device.devindex, device.items@.take(i as int)).push(
                    (item.code@, label@),
                ));
                i = i + 1;
            }
            assert(device.items@.take(device.items@.len() as int) =~= device.items@);
            assert(dc.devices@.take(d + 1).drop_last() =~= dc.devices@.take(d as int));
            d = d + 1;
        }
        assert(dc.devices@.take(dc.devices@.len() as int) =~= dc.devices@);
        assert(input_device_classes@.take(c + 1).drop_last() =~= input_device_classes@.take(c as int));
        c = c + 1;
    }
    assert(input_device_classes@.take(input_device_classes@.len() as int) =~= input_device_classes@);
    r
}

/// The tokens of an input's sequence of the given type.
pub open spec fn seq_tokens_of(input: Input, seq_type: SeqType) -> Option<String> {
    match seq_type {
        SeqType::Standard => input.seq_standard_tokens,
        SeqType::Decrement => input.seq_decrement_tokens,
        SeqType::Increment => input.seq_increment_tokens,
    }
}

/// The arrow that marks a sequence of an axis.
pub open spec fn axis_arrow(axis: Option<InputAxis>, seq_type: SeqType) -> Seq<char> {
    match (axis, seq_type) {
        (None, _) => seq![],
        (Some(InputAxis::X), SeqType::Standard) => seq!['\u{2194}'],
        (Some(InputAxis::X), SeqType::Decrement) => seq!['\u{25C0}'],
        (Some(InputAxis::X), SeqType::Increment) => seq!['\u{25B6}'],
        (Some(InputAxis::Y), SeqType::Standard) => seq!['\u{2195}'],
        (Some(InputAxis::Y), SeqType::Decrement) => seq!['\u{25B2}'],
        (Some(InputAxis::Y), SeqType::Increment) => seq!['\u{25BC}'],
    }
}

/// The description of one sequence, if the input has a non-empty one.
pub open spec fn seq_part(
    input: Input,
    axis: Option<InputAxis>,
    seq_type: SeqType,
    codes: Seq<(Seq<char>, Seq<char>)>,
) -> Option<Seq<char>> {
    match seq_tokens_of(input, seq_type) {
        Some(t) => if t@.len() > 0 {
            Some(axis_arrow(axis, seq_type) + seq_desc(t@, codes))
        } else {
            None
        },
        None => None,
    }
}

/// The descriptions of the non-empty sequences of a list, in order; each entry names an input by
/// its index in `inputs`.
pub open spec fn seq_parts(
    inputs: Seq<Input>,
    list: Seq<(usize, Option<InputAxis>, SeqType)>,
    codes: Seq<(Seq<char>, Seq<char>)>,
) -> Seq<Seq<char>>
    decreases list.len(),
{
    if list.len() == 0 {
        seq![]
    } else {
        let prev = seq_parts(inputs, list.drop_last(), codes);
        match seq_part(inputs[list.last().0 as int], list.last().1, list.last().2, codes) {
            Some(p) => prev.push(p),
            None => prev,
        }
    }
}

/// The text shown for a list of sequences: their descriptions joined with ` / `, or `None`
/// when that is empty.
pub open spec fn code_text(
    inputs: Seq<Input>,
    list: Seq<(usize, Option<InputAxis>, SeqType)>,
    codes: Seq<(Seq<char>, Seq<char>)>,
) -> Seq<char> {
    let j = join(seq_parts(inputs, list, codes), seq![' ', '/', ' ']);
    if j.len() == 0 {
        seq!['N', 'o', 'n', 'e']
    } else {
        j
    }
}

fn arrow_exec(axis: Option<InputAxis>, seq_type: SeqType) -> (r: Vec<char>)
    ensures
        r@ == axis_arrow(axis, seq_type),
{
    let mut r: Vec<char> = Vec::new();
    match (axis, seq_type) {
        (None, _) => {},
        (Some(InputAxis::X), SeqType::Standard) => r.push('\u{2194}'),
        (Some(InputAxis::X), SeqType::Decrement) => r.push('\u{25C0}'),
        (Some(InputAxis::X), SeqType::Increment) => r.push('\u{25B6}'),
        (Some(InputAxis::Y), SeqType::Standard) => r.push('\u{2195}'),
        (Some(InputAxis::Y), SeqType::Decrement) => r.push('\u{25B2}'),
        (Some(InputAxis::Y), SeqType::Increment) => r.push('\u{25BC}'),
    }
    assert(r@ =~= axis_arrow(axis, seq_type));
    r
}

/// The text shown for a list of sequences (each naming an input by its index in `inputs`): the
/// description of each non-empty one, marked with an arrow for an axis, joined with ` / `;
/// `None` when that is empty.
pub fn build_code_text(
    inputs: &[Input],
    input_seqs: &Vec<(usize, Option<InputAxis>, SeqType)>,
    codes: &Vec<(String, String)>,
) -> (r: String)
    requires
        forall|i: int| 0 <= i < input_seqs@.len() ==> #[trigger] input_seqs@[i].0 < inputs@.len(),
    ensures
        r@ == code_text(inputs@, input_seqs@, codes_view(codes@)),
{
    let mut parts: Vec<Vec<char>> = Vec::new();
    let mut i: usize = 0;
    while i < input_seqs.len()
        invariant
            i <= input_seqs@.len(),
            forall|i: int| 0 <= i < input_seqs@.len() ==> #[trigger] input_seqs@[i].0 < inputs@.len(),
            parts@.map_values(|v: Vec<char>| v@) == seq_parts(
                inputs@,
                input_seqs@.take(i as int),
                codes_view(codes@),
            ),
        decreases input_seqs@.len() - i,
    {
        assert(input_seqs@.take(i + 1).drop_last() =~= input_seqs@.take(i as int));
        let (index, axis, seq_type) = input_seqs[i];
        let input = &inputs[index];
        let tokens = match seq_type {
            SeqType::Standard => &input.seq_standard_tokens,
            SeqType::Decrement => &input.seq_decrement_tokens,
            SeqType::Increment => &input.seq_increment_tokens,
        };
        match tokens {
            Some(t) => {
                let tc = chars_of(t.as_str());
                if tc.len() > 0 {
                    let mut part = arrow_exec(axis, seq_type);
                    let desc = seq_tokens_desc_from_string(t.as_str(), codes);
                    push_all(&mut part, &chars_of(desc.as_str()));
                    let ghost before = parts@.map_values(|v: Vec<char>| v@);
                    parts.push(part);
                    assert(parts@.map_values(|v: Vec<char>| v@) =~= before.push(
                        axis_arrow(axis, seq_type) + seq_desc(t@, codes_view(codes@)),
                    ));
                }
            },
            None => {},
        }
        i = i + 1;
    }
    assert(input_seqs@.take(input_seqs@.len() as int) =~= input_seqs@);
    let sep = vec![' ', '/', ' '];
    assert(sep@ =~= seq![' ', '/', ' ']);
    let joined = join_words(&parts, &sep);
    if joined.len() == 0 {
        let none = vec!['N', 'o', 'n', 'e'];
        assert(none@ =~= seq!['N', 'o', 'n', 'e']);
        string_from_chars(&none)
    } else {
        string_from_chars(&joined)
    }
}

} // verus!
