use vstd::prelude::*;
use crate::fp::fp_of_decimal;
use crate::object::str_eq;
use crate::token::{SpecToken, Token};

verus! {

broadcast use vstd::seq::group_seq_axioms;

// ---------------------------------------------------------------------
// The specification of lexing: what sequence of tokens a source text
// denotes. The executable `Lexer` below is proved to produce exactly
// this sequence.
// ---------------------------------------------------------------------

/// The characters skipped between tokens.
pub open spec fn spec_is_whitespace(c: char) -> bool {
    c == ' ' || c == '\t' || c == '\n' || c == '\r'
}

pub open spec fn spec_is_digit(c: char) -> bool {
    '0' <= c && c <= '9'
}

pub open spec fn spec_is_letter(c: char) -> bool {
    ('a' <= c && c <= 'z') || ('A' <= c && c <= 'Z')
}

/// The characters that may continue an identifier.
pub open spec fn spec_is_ident_char(c: char) -> bool {
    spec_is_letter(c) || spec_is_digit(c) || c == '_'
}

/// The characters that may continue a numeric literal.
pub open spec fn spec_is_number_char(c: char) -> bool {
    spec_is_digit(c) || c == '.'
}

/// The first position at or after `i` holding no whitespace.
pub open spec fn spec_skip_whitespace(s: Seq<char>, i: int) -> int
    decreases s.len() - i,
{
    if 0 <= i < s.len() && spec_is_whitespace(s[i]) {
        spec_skip_whitespace(s, i + 1)
    } else {
        i
    }
}

/// The first position at or after `i` that cannot continue an
/// identifier.
pub open spec fn spec_ident_end(s: Seq<char>, i: int) -> int
    decreases s.len() - i,
{
    if 0 <= i < s.len() && spec_is_ident_char(s[i]) {
        spec_ident_end(s, i + 1)
    } else {
        i
    }
}

/// The first position at or after `i` that cannot continue a numeric
/// literal.
pub open spec fn spec_number_end(s: Seq<char>, i: int) -> int
    decreases s.len() - i,
{
    if 0 <= i < s.len() && spec_is_number_char(s[i]) {
        spec_number_end(s, i + 1)
    } else {
        i
    }
}

/// Every character before a number's end can continue a number.
pub proof fn lemma_number_end_chars(s: Seq<char>, i: int)
    ensures
        forall|k: int| i <= k < spec_number_end(s, i) ==> spec_is_number_char(#[trigger] s[k]),
    decreases s.len() - i,
{
    if 0 <= i < s.len() && spec_is_number_char(s[i]) {
        lemma_number_end_chars(s, i + 1);
    }
}

/// The value of a run of decimal digits.
pub open spec fn spec_digits_val(w: Seq<char>) -> int
    decreases w.len(),
{
    if w.len() == 0 {
        0
    } else {
        spec_digits_val(w.drop_last()) * 10 + ((w.last() as u32) - ('0' as u32))
    }
}

/// Does the run hold a dot anywhere?
pub open spec fn spec_has_dot(w: Seq<char>) -> bool {
    exists|j: int| 0 <= j < w.len() && w[j] == '.'
}

/// A word lexed as a keyword where it matches one in full, and as an
/// identifier otherwise.
pub open spec fn spec_keyword_token(w: Seq<char>) -> SpecToken {
    if w == "not"@ {
        SpecToken::Not
    } else if w == "and"@ {
        SpecToken::And
    } else if w == "or"@ {
        SpecToken::Or
    } else if w == "true"@ {
        SpecToken::True
    } else if w == "false"@ {
        SpecToken::False
    } else {
        SpecToken::Ident(w)
    }
}

/// A run of digits and dots lexed as a numeric literal: an integer
/// when it holds no dot, a double otherwise; a run that does not fit
/// or does not parse is an illegal token.
pub open spec fn spec_number_token(w: Seq<char>) -> SpecToken {
    if spec_has_dot(w) {
        match fp_of_decimal(w) {
            Option::Some(b) => SpecToken::DoubleLiteral(b),
            Option::None => SpecToken::Illegal,
        }
    } else {
        if spec_digits_val(w) <= i64::MAX as int {
            SpecToken::IntLiteral(spec_digits_val(w) as i64)
        } else {
            SpecToken::Illegal
        }
    }
}

/// The decoding of a backslash escape inside a string literal.
pub open spec fn spec_escape_char(c: char) -> Option<char> {
    if c == '"' {
        Option::Some('"')
    } else if c == 'n' {
        Option::Some('\n')
    } else if c == 't' {
        Option::Some('\t')
    } else if c == 'r' {
        Option::Some('\r')
    } else if c == '\\' {
        Option::Some('\\')
    } else {
        Option::None
    }
}

/// The rest of a string literal from position `j` (just after the
/// opening quote or the last consumed character), with `acc` the
/// content decoded so far. Yields the token and the position after
/// it. Reaching the end of input before the closing quote, or an
/// unknown escape, yields an illegal token.
pub open spec fn spec_scan_string(s: Seq<char>, j: int, acc: Seq<char>) -> (SpecToken, int)
    decreases s.len() - j,
{
    if j < 0 || j >= s.len() {
        (SpecToken::Illegal, s.len() as int)
    } else if s[j] == '"' {
        (SpecToken::StringLiteral(acc), j + 1)
    } else if s[j] == '\\' {
        if j + 1 >= s.len() {
            (SpecToken::Illegal, s.len() as int)
        } else {
            match spec_escape_char(s[j + 1]) {
                Option::Some(c) => spec_scan_string(s, j + 2, acc.push(c)),
                Option::None => (SpecToken::Illegal, j + 1),
            }
        }
    } else {
        spec_scan_string(s, j + 1, acc.push(s[j]))
    }
}

/// The token starting at position `p` (not whitespace, not past the
/// end), and the position just after it. Classification is greedy
/// longest-match on one or two characters.
pub open spec fn spec_token_after(s: Seq<char>, p: int) -> (SpecToken, int) {
    let c = s[p];
    if c == '(' {
        (SpecToken::LParen, p + 1)
    } else if c == ')' {
        (SpecToken::RParen, p + 1)
    } else if c == '[' {
        (SpecToken::LBracket, p + 1)
    } else if c == ']' {
        (SpecToken::RBracket, p + 1)
    } else if c == '+' {
        (SpecToken::Plus, p + 1)
    } else if c == '-' {
        (SpecToken::Minus, p + 1)
    } else if c == '*' {
        (SpecToken::Asterisk, p + 1)
    } else if c == '/' {
        (SpecToken::Slash, p + 1)
    } else if c == '%' {
        (SpecToken::Percent, p + 1)
    } else if c == ',' {
        (SpecToken::Comma, p + 1)
    } else if c == '=' {
        // There is no assignment operator: a lone '=' is illegal.
        if p + 1 < s.len() && s[p + 1] == '=' {
            (SpecToken::Equals, p + 2)
        } else {
            (SpecToken::Illegal, p + 1)
        }
    } else if c == '!' {
        if p + 1 < s.len() && s[p + 1] == '=' {
            (SpecToken::NotEquals, p + 2)
        } else {
            (SpecToken::Bang, p + 1)
        }
    } else if c == '<' {
        if p + 1 < s.len() && s[p + 1] == '=' {
            (SpecToken::LessThanEqualTo, p + 2)
        } else if p + 1 < s.len() && s[p + 1] == '>' {
            (SpecToken::NotEqualsAngleBrackets, p + 2)
        } else {
            (SpecToken::LessThan, p + 1)
        }
    } else if c == '>' {
        if p + 1 < s.len() && s[p + 1] == '=' {
            (SpecToken::GreaterThanEqualTo, p + 2)
        } else {
            (SpecToken::GreaterThan, p + 1)
        }
    } else if c == '&' {
        // A lone '&' is illegal: only '&&' is an operator.
        if p + 1 < s.len() && s[p + 1] == '&' {
            (SpecToken::DoubleAmpersand, p + 2)
        } else {
            (SpecToken::Illegal, p + 1)
        }
    } else if c == '|' {
        if p + 1 < s.len() && s[p + 1] == '|' {
            (SpecToken::DoublePipe, p + 2)
        } else {
            (SpecToken::Illegal, p + 1)
        }
    } else if spec_is_letter(c) {
        (spec_keyword_token(s.subrange(p, spec_ident_end(s, p))), spec_ident_end(s, p))
    } else if spec_is_digit(c) {
        (spec_number_token(s.subrange(p, spec_number_end(s, p))), spec_number_end(s, p))
    } else if c == '"' {
        spec_scan_string(s, p + 1, Seq::empty())
    } else {
        (SpecToken::Illegal, p + 1)
    }
}

/// Every token of the source from position `i` on, ending with the
/// one end-of-input token.
pub open spec fn spec_tokens_from(s: Seq<char>, i: int) -> Seq<SpecToken>
    decreases s.len() - i,
    via spec_tokens_from_decreases
{
    if i < 0 {
        seq![SpecToken::EOF]
    } else {
        let p = spec_skip_whitespace(s, i);
        if p >= s.len() {
            seq![SpecToken::EOF]
        } else {
            let (t, q) = spec_token_after(s, p);
            seq![t] + spec_tokens_from(s, q)
        }
    }
}

#[via_fn]
proof fn spec_tokens_from_decreases(s: Seq<char>, i: int) {
    if i >= 0 {
        lemma_skip_whitespace_bounds(s, i);
        let p = spec_skip_whitespace(s, i);
        if p < s.len() {
            lemma_token_after_bounds(s, p);
        }
    }
}

/// Skipping whitespace never moves backwards nor past the end.
pub proof fn lemma_skip_whitespace_bounds(s: Seq<char>, i: int)
    ensures
        spec_skip_whitespace(s, i) >= i,
        i <= s.len() ==> spec_skip_whitespace(s, i) <= s.len(),
    decreases s.len() - i,
{
    if 0 <= i < s.len() && spec_is_whitespace(s[i]) {
        lemma_skip_whitespace_bounds(s, i + 1);
    }
}

/// An identifier's end never lies before its start nor past the end
/// of input.
pub proof fn lemma_ident_end_bounds(s: Seq<char>, i: int)
    ensures
        spec_ident_end(s, i) >= i,
        i <= s.len() ==> spec_ident_end(s, i) <= s.len(),
    decreases s.len() - i,
{
    if 0 <= i < s.len() && spec_is_ident_char(s[i]) {
        lemma_ident_end_bounds(s, i + 1);
    }
}

/// A numeric literal's end never lies before its start nor past the
/// end of input.
pub proof fn lemma_number_end_bounds(s: Seq<char>, i: int)
    ensures
        spec_number_end(s, i) >= i,
        i <= s.len() ==> spec_number_end(s, i) <= s.len(),
    decreases s.len() - i,
{
    if 0 <= i < s.len() && spec_is_number_char(s[i]) {
        lemma_number_end_bounds(s, i + 1);
    }
}

/// Scanning a string literal ends at the end of input or after at
/// least one more character.
pub proof fn lemma_scan_string_bounds(s: Seq<char>, j: int, acc: Seq<char>)
    ensures
        spec_scan_string(s, j, acc).1 <= s.len(),
        spec_scan_string(s, j, acc).1 == s.len() || spec_scan_string(s, j, acc).1 >= j + 1,
    decreases s.len() - j,
{
    if 0 <= j < s.len() {
        if s[j] == '"' {
        } else if s[j] == '\\' {
            if j + 1 < s.len() {
                match spec_escape_char(s[j + 1]) {
                    Option::Some(c) => lemma_scan_string_bounds(s, j + 2, acc.push(c)),
                    Option::None => {},
                }
            }
        } else {
            lemma_scan_string_bounds(s, j + 1, acc.push(s[j]));
        }
    }
}

/// Scanning a string literal yields a string or an illegal token,
/// never the end-of-input marker.
pub proof fn lemma_scan_string_not_eof(s: Seq<char>, j: int, acc: Seq<char>)
    ensures
        spec_scan_string(s, j, acc).0 != SpecToken::EOF,
    decreases s.len() - j,
{
    if 0 <= j < s.len() {
        if s[j] == '"' {
        } else if s[j] == '\\' {
            if j + 1 < s.len() {
                match spec_escape_char(s[j + 1]) {
                    Option::Some(c) => lemma_scan_string_not_eof(s, j + 2, acc.push(c)),
                    Option::None => {},
                }
            }
        } else {
            lemma_scan_string_not_eof(s, j + 1, acc.push(s[j]));
        }
    }
}

/// Classification never yields the end-of-input marker: that token
/// stands only for the end of the source.
pub proof fn lemma_token_after_not_eof(s: Seq<char>, p: int)
    requires
        0 <= p < s.len(),
    ensures
        spec_token_after(s, p).0 != SpecToken::EOF,
{
    if s[p] == '"' {
        lemma_scan_string_not_eof(s, p + 1, Seq::empty());
    }
}

/// A token always takes at least one character and never runs past
/// the end of input.
pub proof fn lemma_token_after_bounds(s: Seq<char>, p: int)
    requires
        0 <= p < s.len(),
    ensures
        p < spec_token_after(s, p).1,
        spec_token_after(s, p).1 <= s.len(),
{
    let c = s[p];
    if spec_is_letter(c) {
        lemma_ident_end_bounds(s, p + 1);
        assert(spec_ident_end(s, p) == spec_ident_end(s, p + 1));
    } else if spec_is_digit(c) {
        lemma_number_end_bounds(s, p + 1);
        assert(spec_number_end(s, p) == spec_number_end(s, p + 1));
    } else if c == '"' {
        lemma_scan_string_bounds(s, p + 1, Seq::empty());
    }
}

// ---------------------------------------------------------------------
// The executable lexer.
// ---------------------------------------------------------------------

/// Relies on `String::from_iter` over `char` (via `collect`): the
/// string holding exactly the given characters, in order.
#[verifier::external_body]
fn string_from_chars(v: Vec<char>) -> (r: String)
    ensures
        r@ == v@,
{
    v.into_iter().collect()
}

fn is_whitespace_char(c: char) -> (r: bool)
    ensures
        r == spec_is_whitespace(c),
{
    c == ' ' || c == '\t' || c == '\n' || c == '\r'
}

fn is_digit_char(c: char) -> (r: bool)
    ensures
        r == spec_is_digit(c),
{
    '0' <= c && c <= '9'
}

fn is_letter_char(c: char) -> (r: bool)
    ensures
        r == spec_is_letter(c),
{
    ('a' <= c && c <= 'z') || ('A' <= c && c <= 'Z')
}

fn is_ident_char(c: char) -> (r: bool)
    ensures
        r == spec_is_ident_char(c),
{
    is_letter_char(c) || is_digit_char(c) || c == '_'
}

fn is_number_char(c: char) -> (r: bool)
    ensures
        r == spec_is_number_char(c),
{
    is_digit_char(c) || c == '.'
}

fn escape_char(c: char) -> (r: Option<char>)
    ensures
        r == spec_escape_char(c),
{
    if c == '"' {
        Option::Some('"')
    } else if c == 'n' {
        Option::Some('\n')
    } else if c == 't' {
        Option::Some('\t')
    } else if c == 'r' {
        Option::Some('\r')
    } else if c == '\\' {
        Option::Some('\\')
    } else {
        Option::None
    }
}

/// The value of every digit run is at least zero.
proof fn lemma_digits_val_nonneg(w: Seq<char>)
    requires
        forall|j: int| 0 <= j < w.len() ==> spec_is_digit(#[trigger] w[j]),
    ensures
        spec_digits_val(w) >= 0,
    decreases w.len(),
{
    if w.len() > 0 {
        lemma_digits_val_nonneg(w.drop_last());
    }
}

/// Extending a digit run never shrinks its value.
proof fn lemma_digits_val_prefix_le(w: Seq<char>, k: int)
    requires
        forall|j: int| 0 <= j < w.len() ==> spec_is_digit(#[trigger] w[j]),
        0 <= k <= w.len(),
    ensures
        spec_digits_val(w.subrange(0, k)) <= spec_digits_val(w),
    decreases w.len() - k,
{
    if k < w.len() {
        lemma_digits_val_prefix_le(w, k + 1);
        let u = w.subrange(0, k + 1);
        assert(u.drop_last() =~= w.subrange(0, k));
        assert(forall|j: int| 0 <= j < w.subrange(0, k).len() ==> spec_is_digit(
            #[trigger] w.subrange(0, k)[j],
        ));
        lemma_digits_val_nonneg(w.subrange(0, k));
        assert(spec_digits_val(u) == spec_digits_val(w.subrange(0, k)) * 10 + ((u.last() as u32)
            - ('0' as u32)));
        assert(spec_digits_val(w.subrange(0, k)) * 10 >= spec_digits_val(w.subrange(0, k))) by (
        nonlinear_arith)
            requires
                spec_digits_val(w.subrange(0, k)) >= 0,
        ;
    } else {
        assert(w.subrange(0, k) =~= w);
    }
}

/// A run of decimal digits read as a 64-bit integer, or `None` where
/// its value does not fit.
fn parse_i64(s: &str) -> (r: Option<i64>)
    requires
        forall|j: int| 0 <= j < s@.len() ==> spec_is_digit(#[trigger] s@[j]),
    ensures
        match r {
            Option::Some(v) => spec_digits_val(s@) <= i64::MAX as int && v == spec_digits_val(s@),
            Option::None => spec_digits_val(s@) > i64::MAX as int,
        },
{
    let n = s.unicode_len();
    let mut acc: i64 = 0;
    let mut i: usize = 0;
    proof {
        assert(s@.subrange(0, 0) =~= Seq::<char>::empty());
    }
    while i < n
        invariant
            0 <= i <= n,
            n == s@.len(),
            forall|j: int| 0 <= j < s@.len() ==> spec_is_digit(#[trigger] s@[j]),
            0 <= acc,
            acc == spec_digits_val(s@.subrange(0, i as int)),
        decreases n - i,
    {
        let c = s.get_char(i);
        let d = (c as u32) - ('0' as u32);
        proof {
            assert(spec_is_digit(s@[i as int]));
            assert(d <= 9);
            assert(s@.subrange(0, i + 1).drop_last() =~= s@.subrange(0, i as int));
            assert(s@.subrange(0, i + 1).last() == s@[i as int]);
        }
        if acc > (i64::MAX - (d as i64)) / 10 {
            proof {
                assert(acc * 10 + d > i64::MAX as int) by (nonlinear_arith)
                    requires
                        acc > (i64::MAX - (d as i64)) / 10,
                        0 <= acc,
                        0 <= d <= 9,
                ;
                lemma_digits_val_prefix_le(s@, i + 1);
            }
            return Option::None;
        }
        proof {
            assert(acc * 10 + d <= i64::MAX as int) by (nonlinear_arith)
                requires
                    acc <= (i64::MAX - (d as i64)) / 10,
                    0 <= acc,
                    0 <= d <= 9,
            ;
        }
        acc = acc * 10 + (d as i64);
        i = i + 1;
    }
    proof {
        assert(s@.subrange(0, n as int) =~= s@);
    }
    Option::Some(acc)
}

/// Does the text hold a dot anywhere?
fn contains_dot(s: &str) -> (r: bool)
    ensures
        r == spec_has_dot(s@),
{
    let n = s.unicode_len();
    let mut i: usize = 0;
    while i < n
        invariant
            0 <= i <= n,
            n == s@.len(),
            forall|j: int| 0 <= j < i ==> s@[j] != '.',
        decreases n - i,
    {
        if s.get_char(i) == '.' {
            return true;
        }
        i = i + 1;
    }
    false
}

/// The lexer: a forward-only cursor over the source text that hands
/// out one token at a time, then exactly one end-of-input token, and
/// `None` forever after.
#[derive(Debug)]
pub struct Lexer {
    source: String,
    position: usize,
    eof_returned: bool,
}

impl Lexer {
    /// The source text being lexed.
    pub closed spec fn src(&self) -> Seq<char> {
        self.source@
    }

    /// The current read position, as a character index.
    pub closed spec fn pos(&self) -> int {
        self.position as int
    }

    /// Has the end-of-input token been handed out already?
    pub closed spec fn eof_done(&self) -> bool {
        self.eof_returned
    }

    /// The cursor stays within the text, and the end-of-input token is
    /// handed out only at the end.
    pub closed spec fn wf(&self) -> bool {
        &&& self.position <= self.source@.len()
        &&& (self.eof_returned ==> self.position == self.source@.len())
    }

    /// The tokens still to come, ending with the end-of-input token;
    /// empty once that token has been handed out.
    pub open spec fn remaining(&self) -> Seq<SpecToken> {
        if self.eof_done() {
            Seq::empty()
        } else {
            spec_tokens_from(self.src(), self.pos())
        }
    }

    /// A lexer at the start of the given source text.
    pub fn from_input(input: &str) -> (r: Lexer)
        ensures
            r.wf(),
            r.src() == input@,
            r.pos() == 0,
            !r.eof_done(),
            r.remaining() == spec_tokens_from(input@, 0),
    {
        Lexer { source: input.to_owned(), position: 0, eof_returned: false }
    }

    /// The character under the cursor, if any.
    pub fn peek_char(&self) -> (r: Option<char>)
        requires
            self.wf(),
        ensures
            match r {
                Option::Some(c) => self.pos() < self.src().len() && c == self.src()[self.pos()],
                Option::None => self.pos() == self.src().len(),
            },
    {
        if self.position < self.source.unicode_len() {
            Option::Some(self.source.as_str().get_char(self.position))
        } else {
            Option::None
        }
    }

    /// Step the cursor one character forward, if it is not at the end.
    pub fn read_char(&mut self)
        requires
            old(self).wf(),
        ensures
            final(self).wf(),
            final(self).src() == old(self).src(),
            final(self).eof_done() == old(self).eof_done(),
            final(self).pos() == if old(self).pos() < old(self).src().len() {
                old(self).pos() + 1
            } else {
                old(self).pos()
            },
    {
        if self.position < self.source.unicode_len() {
            self.position = self.position + 1;
        }
    }

    /// Step the cursor past any whitespace.
    pub fn skip_whitespaces(&mut self)
        requires
            old(self).wf(),
        ensures
            final(self).wf(),
            final(self).src() == old(self).src(),
            final(self).eof_done() == old(self).eof_done(),
            final(self).pos() == spec_skip_whitespace(old(self).src(), old(self).pos()),
        decreases old(self).src().len() - old(self).pos(),
    {
        if self.position < self.source.unicode_len() {
            let c = self.source.as_str().get_char(self.position);
            if is_whitespace_char(c) {
                self.position = self.position + 1;
                self.skip_whitespaces();
            }
        }
    }

    /// Read an identifier starting at `read_position` (where the
    /// cursor stands), leaving the cursor just after it.
    pub fn read_identifier(&mut self, read_position: usize) -> (r: String)
        requires
            old(self).wf(),
            old(self).pos() == read_position as int,
        ensures
            final(self).wf(),
            final(self).src() == old(self).src(),
            final(self).eof_done() == old(self).eof_done(),
            final(self).pos() == spec_ident_end(old(self).src(), read_position as int),
            r@ == old(self).src().subrange(read_position as int, final(self).pos()),
    {
        let l = self.source.unicode_len();
        while self.position < l && is_ident_char(self.source.as_str().get_char(self.position))
            invariant
                self.wf(),
                self.source@ == old(self).src(),
                self.eof_returned == old(self).eof_done(),
                l == self.source@.len(),
                read_position as int <= self.pos() <= l as int,
                spec_ident_end(self.src(), read_position as int) == spec_ident_end(
                    self.src(),
                    self.pos(),
                ),
            decreases l - self.position,
        {
            self.position = self.position + 1;
        }
        self.source.as_str().substring_char(read_position, self.position).to_owned()
    }

    /// Read a numeric literal starting where the cursor stands,
    /// leaving the cursor just after it: an integer when it holds no
    /// dot, a double otherwise; a run that does not fit or does not
    /// parse is an illegal token.
    pub fn read_number(&mut self, read_position: usize) -> (t: Token)
        requires
            old(self).wf(),
            old(self).pos() == read_position as int,
            old(self).pos() < old(self).src().len(),
            spec_is_digit(old(self).src()[old(self).pos()]),
        ensures
            final(self).wf(),
            final(self).src() == old(self).src(),
            final(self).eof_done() == old(self).eof_done(),
            final(self).pos() == spec_number_end(old(self).src(), read_position as int),
            t@ == spec_number_token(
                old(self).src().subrange(read_position as int, final(self).pos()),
            ),
    {
        let l = self.source.unicode_len();
        while self.position < l && is_number_char(self.source.as_str().get_char(self.position))
            invariant
                self.wf(),
                self.source@ == old(self).src(),
                self.eof_returned == old(self).eof_done(),
                l == self.source@.len(),
                read_position as int <= self.pos() <= l as int,
                spec_number_end(self.src(), read_position as int) == spec_number_end(
                    self.src(),
                    self.pos(),
                ),
            decreases l - self.position,
        {
            self.position = self.position + 1;
        }
        let text = self.source.as_str().substring_char(read_position, self.position);
        if contains_dot(text) {
            match crate::fp::parse_double_bits(text) {
                Option::Some(b) => Token::DoubleLiteral(b),
                Option::None => Token::Illegal,
            }
        } else {
            proof {
                lemma_number_end_chars(self.src(), read_position as int);
                assert forall|j: int| 0 <= j < text@.len() implies spec_is_digit(
                    #[trigger] text@[j],
                ) by {
                    assert(text@[j] == self.src()[read_position + j]);
                    assert(spec_is_number_char(self.src()[read_position + j]));
                    if self.src()[read_position + j] == '.' {
                        assert(text@[j] == '.');
                        assert(spec_has_dot(text@));
                        assert(false);
                    }
                }
            }
            match parse_i64(text) {
                Option::Some(v) => Token::IntLiteral(v),
                Option::None => Token::Illegal,
            }
        }
    }

    /// Read the rest of a string literal, the cursor standing on the
    /// opening quote; decode escapes; an unterminated literal or an
    /// unknown escape is an illegal token.
    pub fn read_string(&mut self) -> (t: Token)
        requires
            old(self).wf(),
            old(self).pos() < old(self).src().len(),
            old(self).src()[old(self).pos()] == '"',
        ensures
            final(self).wf(),
            final(self).src() == old(self).src(),
            final(self).eof_done() == old(self).eof_done(),
            t@ == spec_scan_string(old(self).src(), old(self).pos() + 1, Seq::empty()).0,
            final(self).pos() == spec_scan_string(old(self).src(), old(self).pos() + 1, Seq::empty()).1,
    {
        let l = self.source.unicode_len();
        self.position = self.position + 1;
        let mut chars: Vec<char> = Vec::new();
        loop
            invariant
                self.wf(),
                self.source@ == old(self).src(),
                self.eof_returned == old(self).eof_done(),
                l == self.source@.len(),
                self.pos() <= l as int,
                spec_scan_string(self.src(), old(self).pos() + 1, Seq::empty())
                    == spec_scan_string(self.src(), self.pos(), chars@),
            decreases l - self.position,
        {
            if self.position >= l {
                return Token::Illegal;
            }
            let c = self.source.as_str().get_char(self.position);
            if c == '"' {
                self.position = self.position + 1;
                let content = string_from_chars(chars);
                return Token::StringLiteral(content);
            }
            if c == '\\' {
                if self.position + 1 >= l {
                    self.position = l;
                    return Token::Illegal;
                }
                let e = self.source.as_str().get_char(self.position + 1);
                match escape_char(e) {
                    Option::Some(d) => {
                        chars.push(d);
                        self.position = self.position + 2;
                    },
                    Option::None => {
                        self.position = self.position + 1;
                        return Token::Illegal;
                    },
                }
            } else {
                chars.push(c);
                self.position = self.position + 1;
            }
        }
    }

    /// The next token: every token of the source in order, then one
    /// end-of-input token, then `None` forever.
    pub fn next(&mut self) -> (r: Option<Token>)
        requires
            old(self).wf(),
        ensures
            final(self).wf(),
            final(self).src() == old(self).src(),
            match r {
                Option::Some(t) => old(self).remaining().len() > 0 && t@ == old(
                    self,
                ).remaining()[0] && final(self).remaining() == old(self).remaining().drop_first(),
                Option::None => old(self).remaining().len() == 0 && final(self).remaining().len()
                    == 0,
            },
    {
        self.skip_whitespaces();
        let l = self.source.unicode_len();
        if self.position >= l {
            if !self.eof_returned {
                self.eof_returned = true;
                proof {
                    assert(old(self).remaining() =~= seq![SpecToken::EOF]);
                    assert(self.remaining() =~= old(self).remaining().drop_first());
                }
                return Option::Some(Token::EOF);
            } else {
                return Option::None;
            }
        }
        let ghost p = self.pos();
        let c = self.source.as_str().get_char(self.position);
        let token: Token = if c == '(' {
            self.position = self.position + 1;
            Token::LParen
        } else if c == ')' {
            self.position = self.position + 1;
            Token::RParen
        } else if c == '[' {
            self.position = self.position + 1;
            Token::LBracket
        } else if c == ']' {
            self.position = self.position + 1;
            Token::RBracket
        } else if c == '+' {
            self.position = self.position + 1;
            Token::Plus
        } else if c == '-' {
            self.position = self.position + 1;
            Token::Minus
        } else if c == '*' {
            self.position = self.position + 1;
            Token::Asterisk
        } else if c == '/' {
            self.position = self.position + 1;
            Token::Slash
        } else if c == '%' {
            self.position = self.position + 1;
            Token::Percent
        } else if c == ',' {
            self.position = self.position + 1;
            Token::Comma
        } else if c == '=' {
            // There is no assignment operator: a lone '=' is illegal.
            if self.position + 1 < l && self.source.as_str().get_char(self.position + 1) == '=' {
                self.position = self.position + 2;
                Token::Equals
            } else {
                self.position = self.position + 1;
                Token::Illegal
            }
        } else if c == '!' {
            if self.position + 1 < l && self.source.as_str().get_char(self.position + 1) == '=' {
                self.position = self.position + 2;
                Token::NotEquals
            } else {
                self.position = self.position + 1;
                Token::Bang
            }
        } else if c == '<' {
            if self.position + 1 < l && self.source.as_str().get_char(self.position + 1) == '=' {
                self.position = self.position + 2;
                Token::LessThanEqualTo
            } else if self.position + 1 < l && self.source.as_str().get_char(self.position + 1)
                == '>' {
                self.position = self.position + 2;
                Token::NotEqualsAngleBrackets
            } else {
                self.position = self.position + 1;
                Token::LessThan
            }
        } else if c == '>' {
            if self.position + 1 < l && self.source.as_str().get_char(self.position + 1) == '=' {
                self.position = self.position + 2;
                Token::GreaterThanEqualTo
            } else {
                self.position = self.position + 1;
                Token::GreaterThan
            }
        } else if c == '&' {
            // A lone '&' is illegal: only '&&' is an operator.
            if self.position + 1 < l && self.source.as_str().get_char(self.position + 1) == '&' {
                self.position = self.position + 2;
                Token::DoubleAmpersand
            } else {
                self.position = self.position + 1;
                Token::Illegal
            }
        } else if c == '|' {
            if self.position + 1 < l && self.source.as_str().get_char(self.position + 1) == '|' {
                self.position = self.position + 2;
                Token::DoublePipe
            } else {
                self.position = self.position + 1;
                Token::Illegal
            }
        } else if is_letter_char(c) {
            let identifier = self.read_identifier(self.position);
            if str_eq(identifier.as_str(), "not") {
                Token::Not
            } else if str_eq(identifier.as_str(), "and") {
                Token::And
            } else if str_eq(identifier.as_str(), "or") {
                Token::Or
            } else if str_eq(identifier.as_str(), "true") {
                Token::True
            } else if str_eq(identifier.as_str(), "false") {
                Token::False
            } else {
                Token::Ident(identifier)
            }
        } else if is_digit_char(c) {
            self.read_number(self.position)
        } else if c == '"' {
            self.read_string()
        } else {
            self.position = self.position + 1;
            Token::Illegal
        };
        proof {
            assert(token@ == spec_token_after(self.src(), p).0);
            assert(self.pos() == spec_token_after(self.src(), p).1);
            assert(old(self).remaining() == seq![token@] + spec_tokens_from(self.src(), self.pos()));
            assert(self.remaining() =~= old(self).remaining().drop_first());
        }
        Option::Some(token)
    }
}


} // verus!
