use vstd::prelude::*;
use vstd::string::*;
use vstd::utf8::encode_utf8;

use crate::text::{
    i32_text, lemma_i32_text_has_no_underscore, lemma_parse_i32_text, nat_text, parse_i32, push_char,
    push_i32_text, push_nat_text,
};

verus! {

/// Longest accepted name, counted in UTF-8 bytes.
pub const MAX_NAME_BYTES: usize = 30;

/// One reason why a raw name is not a valid `Name`.
#[derive(Debug, Clone, PartialEq, Eq)]
pub enum NameValidationError {
    /// The name is empty.
    Empty,
    /// The name is longer than `MAX_NAME_BYTES`; carries its length in bytes.
    TooLong(usize),
    /// The name starts with a space.
    LeadingWhitespace,
    /// The name ends with a space.
    TrailingWhitespace,
    /// The name contains a character outside `[a-zA-Z0-9 ._-]`.
    InvalidCharacter(char),
}

/// The message of `e` for the raw name `name`, as the validation reports it.
pub open spec fn error_message(e: NameValidationError, name: Seq<char>) -> Seq<char> {
    match e {
        NameValidationError::Empty => "Empty name is not allowed"@,
        NameValidationError::TooLong(n) => "(len="@ + nat_text(n as nat) + ") > 30"@,
        NameValidationError::LeadingWhitespace => "'"@ + name + "' is prefixed with whitespace"@,
        NameValidationError::TrailingWhitespace => "'"@ + name + "' is suffixed with whitespace"@,
        NameValidationError::InvalidCharacter(c) => "invalid character "@.push(c),
    }
}

impl NameValidationError {
    /// The message of this error for the raw name `name`.
    pub fn message(&self, name: &str) -> (r: String)
        ensures
            r@ == error_message(*self, name@),
    {
        match self {
            NameValidationError::Empty => "Empty name is not allowed".to_owned(),
            NameValidationError::TooLong(n) => {
                let mut r = "(len=".to_owned();
                push_nat_text(&mut r, *n as u64);
                r.append(") > 30");
                r
            },
            NameValidationError::LeadingWhitespace => {
                let mut r = "'".to_owned();
                r.append(name);
                r.append("' is prefixed with whitespace");
                r
            },
            NameValidationError::TrailingWhitespace => {
                let mut r = "'".to_owned();
                r.append(name);
                r.append("' is suffixed with whitespace");
                r
            },
            NameValidationError::InvalidCharacter(c) => {
                let mut r = "invalid character ".to_owned();
                push_char(&mut r, *c);
                r
            },
        }
    }
}

/// Characters that may appear in a name.
pub open spec fn is_name_char(c: char) -> bool {
    ||| ('a' <= c && c <= 'z')
    ||| ('A' <= c && c <= 'Z')
    ||| ('0' <= c && c <= '9')
    ||| c == '-'
    ||| c == '_'
    ||| c == ' '
    ||| c == '.'
}

/// One error for every character of `s` that is not a name character, in order.
pub open spec fn invalid_char_errors(s: Seq<char>) -> Seq<NameValidationError>
    decreases s.len(),
{
    if s.len() == 0 {
        seq![]
    } else {
        let c = s.last();
        invalid_char_errors(s.drop_last()) + if is_name_char(c) {
            seq![]
        } else {
            seq![NameValidationError::InvalidCharacter(c)]
        }
    }
}

/// The length check of a name whose UTF-8 encoding has `byte_len` bytes.
pub open spec fn length_errors(byte_len: nat) -> Seq<NameValidationError> {
    if byte_len == 0 {
        seq![NameValidationError::Empty]
    } else if byte_len <= MAX_NAME_BYTES {
        seq![]
    } else {
        seq![NameValidationError::TooLong(byte_len as usize)]
    }
}

/// All errors of a raw name, in the order in which they are reported:
/// length, leading space, trailing space, then each invalid character.
pub open spec fn name_errors(s: Seq<char>) -> Seq<NameValidationError> {
    length_errors(encode_utf8(s).len())
        + (if s.len() > 0 && s[0] == ' ' { seq![NameValidationError::LeadingWhitespace] } else { seq![] })
        + (if s.len() > 0 && s.last() == ' ' { seq![NameValidationError::TrailingWhitespace] } else { seq![] })
        + invalid_char_errors(s)
}

/// A raw name is valid when it has no errors.
pub open spec fn is_valid_name(s: Seq<char>) -> bool {
    name_errors(s).len() == 0
}

/// Index of the last `'_'` in `s`, if there is one.
pub open spec fn last_underscore(s: Seq<char>) -> Option<int>
    decreases s.len(),
{
    if s.len() == 0 {
        None
    } else if s.last() == '_' {
        Some(s.len() - 1)
    } else {
        last_underscore(s.drop_last())
    }
}

/// Base and first number of the names suggested for `s`: when `s` ends with
/// `_<number>`, the part before the last `'_'` and that number; otherwise `s` and 1.
pub open spec fn suggestion_start(s: Seq<char>) -> (Seq<char>, i32) {
    match last_underscore(s) {
        Some(k) => match parse_i32(s.subrange(k + 1, s.len() as int)) {
            Some(n) => (s.subrange(0, k), n),
            None => (s, 1i32),
        },
        None => (s, 1i32),
    }
}

/// The suggested name `<base>_<n>`.
pub open spec fn suggestion_text(base: Seq<char>, n: i32) -> Seq<char> {
    base + seq!['_'] + i32_text(n as int)
}

/// A name as it was entered, before validation.
#[derive(Debug, Clone, PartialEq, Eq, PartialOrd, Ord, Hash)]
pub struct NameRaw(String);

/// A name of a recipe, device or theme. Names built by `Name::new` are valid;
/// names built by `NameSuggestions::next` are not checked.
#[derive(Debug, Clone, PartialEq, Eq, PartialOrd, Ord, Hash)]
pub struct Name {
    raw: String,
}

impl View for NameRaw {
    type V = Seq<char>;

    closed spec fn view(&self) -> Seq<char> {
        self.0@
    }
}

impl View for Name {
    type V = Seq<char>;

    closed spec fn view(&self) -> Seq<char> {
        self.raw@
    }
}

fn is_name_char_exec(c: char) -> (r: bool)
    ensures
        r == is_name_char(c),
{
    ('a' <= c && c <= 'z') || ('A' <= c && c <= 'Z') || ('0' <= c && c <= '9') || c == '-'
        || c == '_' || c == ' ' || c == '.'
}

impl NameRaw {
    pub fn new(value: String) -> (r: NameRaw)
        ensures
            r@ == value@,
    {
        NameRaw(value)
    }

    /// The raw text.
    pub fn as_str(&self) -> (r: &str)
        ensures
            r@ == self@,
    {
        self.0.as_str()
    }

    /// Collects every reason why this raw name is not valid; `Ok` when there is none.
    pub fn check(&self) -> (r: Result<(), Vec<NameValidationError>>)
        ensures
            r is Ok <==> is_valid_name(self@),
            r matches Err(e) ==> e@ == name_errors(self@),
    {
        let s = self.0.as_str();
        let mut errors: Vec<NameValidationError> = Vec::new();
        let byte_len = s.as_bytes().len();
        if byte_len == 0 {
            errors.push(NameValidationError::Empty);
        } else if byte_len > MAX_NAME_BYTES {
            errors.push(NameValidationError::TooLong(byte_len));
        }
        assert(errors@ == length_errors(encode_utf8(self@).len()));
        let n = s.unicode_len();
        if n > 0 && s.get_char(0) == ' ' {
            errors.push(NameValidationError::LeadingWhitespace);
        }
        if n > 0 && s.get_char(n - 1) == ' ' {
            errors.push(NameValidationError::TrailingWhitespace);
        }
        let ghost prefix = errors@;
        assert(self@.take(0) =~= seq![]);
        let mut i: usize = 0;
        while i < n
            invariant
                n == self@.len(),
                s@ == self@,
                i <= n,
                errors@ == prefix + invalid_char_errors(self@.take(i as int)),
            decreases n - i,
        {
            let c = s.get_char(i);
            assert(self@.take(i + 1).drop_last() =~= self@.take(i as int));
            if !is_name_char_exec(c) {
                errors.push(NameValidationError::InvalidCharacter(c));
            }
            i = i + 1;
            assert(errors@ =~= prefix + invalid_char_errors(self@.take(i as int)));
        }
        assert(self@.take(n as int) =~= self@);
        assert(errors@ == name_errors(self@));
        if errors.len() == 0 {
            Ok(())
        } else {
            Err(errors)
        }
    }

    /// Turns the raw name into a `Name` when it is valid.
    pub fn seal(self) -> (r: Result<Name, Vec<NameValidationError>>)
        ensures
            r is Ok <==> is_valid_name(self@),
            r matches Ok(n) ==> n@ == self@,
            r matches Err(e) ==> e@ == name_errors(self@),
    {
        match self.check() {
            Ok(()) => Ok(Name { raw: self.0 }),
            Err(e) => Err(e),
        }
    }
}

/// The names `<base>_<n>`, `<base>_<n+1>`, ... that `Name::suggest_unique` offers.
#[derive(Debug, Clone)]
pub struct NameSuggestions {
    base: String,
    next_number: Option<i32>,
}

impl NameSuggestions {
    /// The text in front of `_<number>` in every suggestion.
    pub closed spec fn spec_base(&self) -> Seq<char> {
        self.base@
    }

    /// The number of the next suggestion, `None` once all numbers up to `i32::MAX` were offered.
    pub closed spec fn spec_next_number(&self) -> Option<i32> {
        self.next_number
    }

    /// The next suggestion. After `<base>_2147483647` there are no more.
    pub fn next(&mut self) -> (r: Option<Name>)
        ensures
            final(self).spec_base() == old(self).spec_base(),
            match old(self).spec_next_number() {
                None => r is None && final(self).spec_next_number() is None,
                Some(n) => {
                    &&& r matches Some(name) && name@ == suggestion_text(old(self).spec_base(), n)
                    &&& final(self).spec_next_number() == (if n == i32::MAX {
                        None::<i32>
                    } else {
                        Some((n + 1) as i32)
                    })
                },
            },
    {
        match self.next_number {
            None => None,
            Some(n) => {
                let mut text = self.base.clone();
                text.append("_");
                proof {
                    reveal_strlit("_");
                }
                push_i32_text(&mut text, n);
                self.next_number = if n == i32::MAX {
                    None
                } else {
                    Some(n + 1)
                };
                Some(Name { raw: text })
            },
        }
    }
}

/// Index of the last `'_'` in the first `end` characters of `s`.
fn find_last_underscore(s: &str, end: usize) -> (r: Option<usize>)
    requires
        end <= s@.len(),
    ensures
        match r {
            Some(k) => last_underscore(s@.take(end as int)) == Some(k as int),
            None => last_underscore(s@.take(end as int)) is None,
        },
    decreases end,
{
    if end == 0 {
        return None;
    }
    assert(s@.take(end as int).drop_last() =~= s@.take(end - 1));
    if s.get_char(end - 1) == '_' {
        Some(end - 1)
    } else {
        find_last_underscore(s, end - 1)
    }
}

proof fn lemma_last_underscore_bounds(s: Seq<char>)
    ensures
        last_underscore(s) matches Some(k) ==> 0 <= k < s.len() && s[k] == '_',
    decreases s.len(),
{
    if s.len() > 0 && s.last() != '_' {
        lemma_last_underscore_bounds(s.drop_last());
    }
}

impl Name {
    /// Validates `value` and returns it as a name.
    pub fn new(value: String) -> (r: Result<Name, Vec<NameValidationError>>)
        ensures
            r is Ok <==> is_valid_name(value@),
            r matches Ok(n) ==> n@ == value@,
            r matches Err(e) ==> e@ == name_errors(value@),
    {
        NameRaw(value).seal()
    }

    /// Parses a name from text; the same as `Name::new`.
    pub fn parse(value: &str) -> (r: Result<Name, Vec<NameValidationError>>)
        ensures
            r is Ok <==> is_valid_name(value@),
            r matches Ok(n) ==> n@ == value@,
            r matches Err(e) ==> e@ == name_errors(value@),
    {
        Name::new(value.to_owned())
    }

    /// The text of the name.
    pub fn as_str(&self) -> (r: &str)
        ensures
            r@ == self@,
    {
        self.raw.as_str()
    }

    /// A copy of the name.
    pub fn duplicate(&self) -> (r: Name)
        ensures
            r@ == self@,
    {
        Name { raw: self.raw.clone() }
    }

    /// Suggestions for a fresh name derived from this one: `foo_3` gives `foo_3`, `foo_4`, ...;
    /// a name without a numeric suffix, such as `foo`, gives `foo_1`, `foo_2`, ...
    pub fn suggest_unique(&self) -> (r: NameSuggestions)
        ensures
            r.spec_base() == suggestion_start(self@).0,
            r.spec_next_number() == Some(suggestion_start(self@).1),
    {
        let s = self.raw.as_str();
        let n = s.unicode_len();
        assert(self@.take(n as int) =~= self@);
        proof {
            lemma_last_underscore_bounds(self@);
        }
        match find_last_underscore(s, n) {
            Some(k) => {
                let suffix = s.substring_char(k + 1, n);
                match crate::text::parse_i32_str(suffix) {
                    Some(number) => {
                        let base = s.substring_char(0, k);
                        NameSuggestions { base: base.to_owned(), next_number: Some(number) }
                    },
                    None => NameSuggestions { base: self.raw.clone(), next_number: Some(1) },
                }
            },
            None => NameSuggestions { base: self.raw.clone(), next_number: Some(1) },
        }
    }
}

/// Identifier of a recipe: a name.
#[derive(Debug, Clone, PartialEq, Eq, PartialOrd, Ord, Hash)]
pub struct RecipeId(pub Name);

impl View for RecipeId {
    type V = Seq<char>;

    open spec fn view(&self) -> Seq<char> {
        self.0@
    }
}

/// Suggestions for a fresh recipe id derived from another.
#[derive(Debug, Clone)]
pub struct RecipeIdSuggestions(pub NameSuggestions);

impl RecipeIdSuggestions {
    /// The next suggested recipe id; see `NameSuggestions::next`.
    pub fn next(&mut self) -> (r: Option<RecipeId>)
        ensures
            final(self).0.spec_base() == old(self).0.spec_base(),
            match old(self).0.spec_next_number() {
                None => r is None && final(self).0.spec_next_number() is None,
                Some(n) => {
                    &&& r matches Some(id) && id@ == suggestion_text(old(self).0.spec_base(), n)
                    &&& final(self).0.spec_next_number() == (if n == i32::MAX {
                        None::<i32>
                    } else {
                        Some((n + 1) as i32)
                    })
                },
            },
    {
        match self.0.next() {
            Some(n) => Some(RecipeId(n)),
            None => None,
        }
    }
}

impl RecipeId {
    /// Parses a recipe id; valid exactly when the text is a valid name.
    pub fn parse(value: &str) -> (r: Result<RecipeId, Vec<NameValidationError>>)
        ensures
            r is Ok <==> is_valid_name(value@),
            r matches Ok(id) ==> id@ == value@,
            r matches Err(e) ==> e@ == name_errors(value@),
    {
        match Name::parse(value) {
            Ok(n) => Ok(RecipeId(n)),
            Err(e) => Err(e),
        }
    }

    /// The recipe id `default`.
    pub fn default_id() -> (r: RecipeId)
        ensures
            r@ == "default"@,
    {
        proof {
            reveal_strlit("default");
        }
        RecipeId(Name { raw: "default".to_owned() })
    }

    /// The text of the id.
    pub fn as_str(&self) -> (r: &str)
        ensures
            r@ == self@,
    {
        self.0.as_str()
    }

    /// A copy of the id.
    pub fn duplicate(&self) -> (r: RecipeId)
        ensures
            r@ == self@,
    {
        RecipeId(self.0.duplicate())
    }

    /// Suggestions for a fresh recipe id; see `Name::suggest_unique`.
    pub fn suggest_unique(&self) -> (r: RecipeIdSuggestions)
        ensures
            r.0.spec_base() == suggestion_start(self@).0,
            r.0.spec_next_number() == Some(suggestion_start(self@).1),
    {
        RecipeIdSuggestions(self.0.suggest_unique())
    }
}

proof fn lemma_last_underscore_before(base: Seq<char>, t: Seq<char>)
    requires
        !t.contains('_'),
    ensures
        last_underscore(base + seq!['_'] + t) == Some(base.len() as int),
    decreases t.len(),
{
    let s = base + seq!['_'] + t;
    if t.len() > 0 {
        assert(s.last() == t.last());
        assert(t.last() != '_') by {
            if t.last() == '_' {
                assert(t[t.len() - 1] == '_');
            }
        }
        assert(!t.drop_last().contains('_')) by {
            if t.drop_last().contains('_') {
                let i = choose|i: int| 0 <= i < t.drop_last().len() && t.drop_last()[i] == '_';
                assert(t[i] == '_');
            }
        }
        assert(s.drop_last() =~= base + seq!['_'] + t.drop_last());
        lemma_last_underscore_before(base, t.drop_last());
    } else {
        assert(s.last() == '_');
    }
}

/// A suggested name continues its own numbering: the suggestions for `<base>_<n>`
/// start at `<base>_<n>` again, with the same base.
pub proof fn lemma_suggestion_continues(base: Seq<char>, n: i32)
    ensures
        suggestion_start(suggestion_text(base, n)) == (base, n),
{
    let t = i32_text(n as int);
    let s = suggestion_text(base, n);
    lemma_i32_text_has_no_underscore(n);
    lemma_last_underscore_before(base, t);
    lemma_parse_i32_text(n);
    assert(s.subrange(base.len() + 1int, s.len() as int) =~= t);
    assert(s.subrange(0, base.len() as int) =~= base);
}

impl Default for RecipeId {
    fn default() -> (r: Self)
        ensures
            r@ == "default"@,
    {
        RecipeId::default_id()
    }
}

impl NameRaw {
    /// The text of the raw name, given back.
    pub fn into_string(self) -> (r: String)
        ensures
            r@ == self@,
    {
        self.0
    }
}

/// Whether `c` is an ASCII letter, an ASCII digit, `-`, `_`, a space or `.`.
spec fn allowed_in_name(c: char) -> bool {
    ('a' <= c <= 'z') || ('A' <= c <= 'Z') || ('0' <= c <= '9') || c == '-' || c == '_' || c == ' '
        || c == '.'
}

/// Names are made of ASCII letters, ASCII digits, `-`, `_`, spaces and `.`, and
/// each character is judged on its own: a name character is exactly one of these;
/// one more character after a raw name adds no error when it is one of them and
/// exactly one `InvalidCharacter` error naming it otherwise; and a valid name never
/// ends with any other character.
pub proof fn lemma_name_characters(s: Seq<char>, c: char)
    ensures
        is_name_char(c) <==> (('a' <= c <= 'z') || ('A' <= c <= 'Z') || ('0' <= c <= '9') || c == '-'
            || c == '_' || c == ' ' || c == '.'),
        invalid_char_errors(s.push(c)) == invalid_char_errors(s) + if ('a' <= c <= 'z') || ('A' <= c <= 'Z')
            || ('0' <= c <= '9') || c == '-' || c == '_' || c == ' ' || c == '.' {
            Seq::<NameValidationError>::empty()
        } else {
            seq![NameValidationError::InvalidCharacter(c)]
        },
        is_valid_name(s.push(c)) ==> (('a' <= c <= 'z') || ('A' <= c <= 'Z') || ('0' <= c <= '9') || c
            == '-' || c == '_' || c == ' ' || c == '.'),
{
    let t = s.push(c);
    assert(t.drop_last() =~= s);
    assert(t.last() == c);
    let tail = if allowed_in_name(c) {
        Seq::<NameValidationError>::empty()
    } else {
        seq![NameValidationError::InvalidCharacter(c)]
    };
    assert(invalid_char_errors(t) =~= invalid_char_errors(s) + tail);
    if is_valid_name(t) {
        let front = length_errors(encode_utf8(t).len()) + (if t.len() > 0 && t[0] == ' ' {
            seq![NameValidationError::LeadingWhitespace]
        } else {
            seq![]
        }) + (if t.len() > 0 && t.last() == ' ' {
            seq![NameValidationError::TrailingWhitespace]
        } else {
            seq![]
        });
        assert(name_errors(t) == front + invalid_char_errors(t));
        assert(invalid_char_errors(t).len() == 0);
    }
}

} // verus!
