use std::borrow::Cow;
use vstd::prelude::*;
use crate::text_utils::{ascii_space, is_ascii_space};

verus! {

/// Why an argument could not be read from what is there.
#[derive(Clone, Copy, Debug, PartialEq, Eq, Structural)]
pub enum ParseIssue {
    ReplyWithoutText,
    UnknownLanguage,
}

/// Why a command's arguments could not be converted.
#[derive(Clone, Copy, Debug, PartialEq, Eq, Structural)]
pub enum CommandError {
    MissingArgument,
    ArgumentParseError(ParseIssue),
}

/// What a user is told about an argument that could not be read.
pub open spec fn parse_issue_text(issue: ParseIssue) -> Seq<char> {
    match issue {
        ParseIssue::ReplyWithoutText => "replied message doesn't contain any text."@,
        ParseIssue::UnknownLanguage => "unknown language code or name."@,
    }
}

impl ParseIssue {
    pub fn message(&self) -> (text: &'static str)
        ensures
            text@ == parse_issue_text(*self),
    {
        match self {
            ParseIssue::ReplyWithoutText => "replied message doesn't contain any text.",
            ParseIssue::UnknownLanguage => "unknown language code or name.",
        }
    }
}

/// The first place from `i` on at which `s` has white space, if `space`,
/// or anything else, if not; the length of `s` if there is none.
pub open spec fn first_from(s: Seq<char>, i: int, space: bool) -> int
    decreases s.len() - i,
{
    if i < 0 || i >= s.len() {
        s.len() as int
    } else if is_ascii_space(s[i]) == space {
        i
    } else {
        first_from(s, i + 1, space)
    }
}

/// Where the first word of `s` begins.
pub open spec fn word_start(s: Seq<char>) -> int {
    first_from(s, 0, false)
}

/// Where the first word of `s` ends.
pub open spec fn word_end(s: Seq<char>) -> int {
    first_from(s, word_start(s), true)
}

/// Where the rest begins once the first word of `s` is taken: behind
/// the one white space that ends the word.
pub open spec fn after_word(s: Seq<char>) -> int {
    if word_end(s) < s.len() {
        word_end(s) + 1
    } else {
        s.len() as int
    }
}

pub proof fn lemma_first_from_bounds(s: Seq<char>, i: int, space: bool)
    requires
        0 <= i <= s.len(),
    ensures
        i <= first_from(s, i, space) <= s.len(),
        first_from(s, i, space) < s.len() ==> is_ascii_space(s[first_from(s, i, space)])
            == space,
        forall|k: int| i <= k < first_from(s, i, space) ==> is_ascii_space(#[trigger] s[k]) != space,
    decreases s.len() - i,
{
    if i < s.len() && is_ascii_space(s[i]) != space {
        lemma_first_from_bounds(s, i + 1, space);
    }
}

/// The characters of a text.
pub fn chars_of(text: &str) -> (chars: Vec<char>)
    ensures
        chars@ == text@,
{
    let mut chars: Vec<char> = Vec::new();
    for c in it: text.chars()
        invariant
            it.seq() == text@,
            chars@ == text@.take(it.index()),
    {
        chars.push(c);
        assert(chars@ =~= text@.take(it.index() + 1));
    }
    assert(text@.take(text@.len() as int) == text@);
    chars
}

/// The first place from `i` on at which `chars` has white space, if
/// `space`, or anything else, if not.
fn find_from(chars: &Vec<char>, i: usize, space: bool) -> (k: usize)
    requires
        i <= chars@.len(),
    ensures
        k == first_from(chars@, i as int, space),
        i <= k <= chars@.len(),
{
    let mut k: usize = i;
    while k < chars.len() && ascii_space(chars[k]) != space
        invariant
            i <= k <= chars@.len(),
            first_from(chars@, i as int, space) == first_from(chars@, k as int, space),
        decreases chars@.len() - k,
    {
        k = k + 1;
    }
    k
}

/// The text of `chars` from `from` up to `to`.
fn text_of(chars: &Vec<char>, from: usize, to: usize) -> (text: String)
    requires
        from <= to <= chars@.len(),
    ensures
        text@ == chars@.subrange(from as int, to as int),
{
    let mut text = String::new();
    let mut k: usize = from;
    while k < to
        invariant
            from <= k <= to <= chars@.len(),
            text@ == chars@.subrange(from as int, k as int),
        decreases to - k,
    {
        text.push(chars[k]);
        k = k + 1;
        assert(text@ =~= chars@.subrange(from as int, k as int));
    }
    text
}

/// Takes the first word of the arguments: what stands between white
/// space. Gives the word and what follows the one white space behind it.
pub fn convert_word<'a>(arguments: &'a str) -> (converted: Result<(String, &'a str), CommandError>)
    ensures
        match converted {
            Ok((word, rest)) => {
                &&& word_start(arguments@) < arguments@.len()
                &&& word@ == arguments@.subrange(word_start(arguments@), word_end(arguments@))
                &&& rest@ == arguments@.subrange(
                    after_word(arguments@),
                    arguments@.len() as int,
                )
            },
            Err(e) => e == CommandError::MissingArgument && word_start(arguments@)
                == arguments@.len(),
        },
{
    let chars = chars_of(arguments);
    let start = find_from(&chars, 0, false);
    if start == chars.len() {
        return Err(CommandError::MissingArgument);
    }
    let end = find_from(&chars, start, true);
    let word = text_of(&chars, start, end);
    let after: usize = if end < chars.len() {
        end + 1
    } else {
        end
    };
    Ok((word, arguments.substring_char(after, chars.len())))
}

/// What an optional argument is: the argument where it could be
/// converted, with what was left over; nothing and the arguments as they
/// were where it could not.
pub fn optional<'a, T>(
    converted: Result<(T, &'a str), CommandError>,
    arguments: &'a str,
) -> (out: (Option<T>, &'a str))
    ensures
        out == match converted {
            Ok((argument, rest)) => (Some(argument), rest),
            Err(_) => (None, arguments),
        },
{
    match converted {
        Ok((argument, rest)) => (Some(argument), rest),
        Err(_) => (None, arguments),
    }
}

/// Whether `c` is white space to Unicode.
pub open spec fn is_white_space(c: char) -> bool {
    let n = c as u32;
    (0x09 <= n <= 0x0D) || n == 0x20 || n == 0x85 || n == 0xA0 || n == 0x1680 || (0x2000 <= n
        <= 0x200A) || n == 0x2028 || n == 0x2029 || n == 0x202F || n == 0x205F || n == 0x3000
}

pub fn white_space(c: char) -> (b: bool)
    ensures
        b == is_white_space(c),
{
    let n = c as u32;
    (0x09 <= n && n <= 0x0D) || n == 0x20 || n == 0x85 || n == 0xA0 || n == 0x1680 || (0x2000
        <= n && n <= 0x200A) || n == 0x2028 || n == 0x2029 || n == 0x202F || n == 0x205F || n
        == 0x3000
}

/// Where `s` begins once the white space in front of it is gone.
pub open spec fn text_start(s: Seq<char>, i: int) -> int
    decreases s.len() - i,
{
    if i < 0 || i >= s.len() {
        s.len() as int
    } else if !is_white_space(s[i]) {
        i
    } else {
        text_start(s, i + 1)
    }
}

/// All that is left of the arguments.
pub struct StringGreedy(pub String);

impl StringGreedy {
    /// Takes all the arguments, without the white space in front of
    /// them. Nothing is left over.
    pub fn convert<'a>(arguments: &'a str) -> (converted: Result<(Self, &'a str), CommandError>)
        ensures
            match converted {
                Ok((argument, rest)) => {
                    &&& text_start(arguments@, 0) < arguments@.len()
                    &&& argument.0@ == arguments@.subrange(
                        text_start(arguments@, 0),
                        arguments@.len() as int,
                    )
                    &&& rest@ == Seq::<char>::empty()
                },
                Err(e) => e == CommandError::MissingArgument && text_start(arguments@, 0)
                    == arguments@.len(),
            },
    {
        let chars = chars_of(arguments);
        let mut k: usize = 0;
        while k < chars.len() && white_space(chars[k])
            invariant
                k <= chars@.len(),
                text_start(chars@, 0) == text_start(chars@, k as int),
            decreases chars@.len() - k,
        {
            k = k + 1;
        }
        if k == chars.len() {
            return Err(CommandError::MissingArgument);
        }
        let text = text_of(&chars, k, chars.len());
        let rest = arguments.substring_char(chars.len(), chars.len());
        assert(rest@ =~= Seq::<char>::empty());
        Ok((StringGreedy(text), rest))
    }
}

/// The message that a command replies to, as far as an argument needs
/// it.
pub enum RepliedMessage {
    /// The command replies to nothing.
    Absent,
    /// The command replies to a message without text.
    WithoutText,
    /// The command replies to a message with this text.
    Text(String),
}

/// The text of the message that the command replies to.
pub struct Reply(pub String);

impl Reply {
    /// Takes the text of the message replied to. The arguments stay as
    /// they are.
    pub fn convert<'a>(
        replied: RepliedMessage,
        arguments: &'a str,
    ) -> (converted: Result<(Self, &'a str), CommandError>)
        ensures
            match replied {
                RepliedMessage::Absent => converted is Err && converted->Err_0
                    == CommandError::MissingArgument,
                RepliedMessage::WithoutText => converted is Err && converted->Err_0
                    == CommandError::ArgumentParseError(ParseIssue::ReplyWithoutText),
                RepliedMessage::Text(text) => converted is Ok && converted->Ok_0.0.0@ == text@
                    && converted->Ok_0.1 == arguments,
            },
    {
        match replied {
            RepliedMessage::Absent => Err(CommandError::MissingArgument),
            RepliedMessage::WithoutText => Err(
                CommandError::ArgumentParseError(ParseIssue::ReplyWithoutText),
            ),
            RepliedMessage::Text(text) => Ok((Reply(text), arguments)),
        }
    }
}

/// All that is left of the arguments or, where nothing is, the text of
/// the message that the command replies to.
pub struct StringGreedyOrReply(pub String);

impl StringGreedyOrReply {
    /// Takes all the arguments, if there are any. Where this gives
    /// nothing, the message replied to is looked up and handed to
    /// `from_reply`.
    pub fn from_arguments<'a>(arguments: &'a str) -> (converted: Option<(Self, &'a str)>)
        ensures
            match converted {
                Some((argument, rest)) => {
                    &&& text_start(arguments@, 0) < arguments@.len()
                    &&& argument.0@ == arguments@.subrange(
                        text_start(arguments@, 0),
                        arguments@.len() as int,
                    )
                    &&& rest@ == Seq::<char>::empty()
                },
                None => text_start(arguments@, 0) == arguments@.len(),
            },
    {
        match optional(StringGreedy::convert(arguments), arguments) {
            (Some(argument), rest) => Some((StringGreedyOrReply(argument.0), rest)),
            (None, _) => None,
        }
    }

    /// Takes the text of the message replied to, for arguments that
    /// held nothing.
    pub fn from_reply<'a>(
        replied: RepliedMessage,
        arguments: &'a str,
    ) -> (converted: Result<(Self, &'a str), CommandError>)
        ensures
            match replied {
                RepliedMessage::Absent => converted is Err && converted->Err_0
                    == CommandError::MissingArgument,
                RepliedMessage::WithoutText => converted is Err && converted->Err_0
                    == CommandError::ArgumentParseError(ParseIssue::ReplyWithoutText),
                RepliedMessage::Text(text) => converted is Ok && converted->Ok_0.0.0@ == text@
                    && converted->Ok_0.1 == arguments,
            },
    {
        match Reply::convert(replied, arguments) {
            Ok((Reply(text), rest)) => Ok((StringGreedyOrReply(text), rest)),
            Err(e) => Err(e),
        }
    }
}

/// A letter of ASCII in lower case; any other character as it is.
pub open spec fn ascii_lower(c: char) -> char {
    if 0x41 <= c as u32 <= 0x5A {
        ((c as u8 + 32) as u8) as char
    } else {
        c
    }
}

pub fn to_ascii_lower(c: char) -> (lower: char)
    ensures
        lower == ascii_lower(c),
{
    if 0x41 <= c as u32 && c as u32 <= 0x5A {
        ((c as u8) + 32) as char
    } else {
        c
    }
}

/// A text with its letters of ASCII in lower case.
pub open spec fn lowered(s: Seq<char>) -> Seq<char> {
    Seq::new(s.len(), |i: int| ascii_lower(s[i]))
}

/// The characters of `chars`, the letters of ASCII in lower case.
pub fn lower_chars(chars: &Vec<char>) -> (lower: Vec<char>)
    ensures
        lower@ == lowered(chars@),
{
    let mut lower: Vec<char> = Vec::new();
    let mut i: usize = 0;
    while i < chars.len()
        invariant
            i <= chars@.len(),
            lower@ == lowered(chars@.take(i as int)),
        decreases chars@.len() - i,
    {
        lower.push(to_ascii_lower(chars[i]));
        i = i + 1;
        assert(lower@ =~= lowered(chars@.take(i as int)));
    }
    assert(chars@.take(chars@.len() as int) == chars@);
    lower
}

/// The words of `s` from `i` on: what stands between white space, in
/// order.
pub open spec fn words_from(s: Seq<char>, i: int) -> Seq<Seq<char>>
    decreases s.len() - i,
{
    if i < 0 || i >= s.len() {
        Seq::<Seq<char>>::empty()
    } else if is_ascii_space(s[i]) {
        words_from(s, i + 1)
    } else {
        let end = first_from(s, i, true);
        seq![s.subrange(i, end)] + words_from(
            s,
            if i < end <= s.len() {
                end
            } else {
                i + 1
            },
        )
    }
}

/// The words of `s`.
pub open spec fn words(s: Seq<char>) -> Seq<Seq<char>> {
    words_from(s, 0)
}

/// The words of `words`, each by its view.
pub open spec fn word_views(words: Seq<Vec<char>>) -> Seq<Seq<char>> {
    Seq::new(words.len(), |i: int| words[i]@)
}

/// Whether `words` begins with the words of `prefix`.
pub open spec fn begins_with(words: Seq<Seq<char>>, prefix: Seq<Seq<char>>) -> bool {
    &&& prefix.len() <= words.len()
    &&& forall|i: int| 0 <= i < prefix.len() ==> #[trigger] prefix[i] == words[i]
}

proof fn lemma_words_skip_spaces(s: Seq<char>, i: int, k: int)
    requires
        0 <= i <= k <= s.len(),
        forall|j: int| i <= j < k ==> is_ascii_space(#[trigger] s[j]),
    ensures
        words_from(s, i) == words_from(s, k),
    decreases k - i,
{
    if i < k {
        lemma_words_skip_spaces(s, i + 1, k);
    }
}

/// Splits `chars` into its words.
pub fn split_words(chars: &Vec<char>) -> (out: Vec<Vec<char>>)
    ensures
        word_views(out@) == words(chars@),
{
    let mut out: Vec<Vec<char>> = Vec::new();
    let mut i: usize = 0;
    assert(word_views(out@) + words_from(chars@, 0) =~= words(chars@));
    while i < chars.len()
        invariant
            i <= chars@.len(),
            word_views(out@) + words_from(chars@, i as int) == words(chars@),
        decreases chars@.len() - i,
    {
        let start = find_from(chars, i, false);
        proof {
            lemma_first_from_bounds(chars@, i as int, false);
            lemma_words_skip_spaces(chars@, i as int, start as int);
        }
        if start == chars.len() {
            i = start;
        } else {
            let end = find_from(chars, start, true);
            proof {
                lemma_first_from_bounds(chars@, start as int, true);
            }
            let mut word: Vec<char> = Vec::new();
            let mut k: usize = start;
            while k < end
                invariant
                    start <= k <= end <= chars@.len(),
                    word@ == chars@.subrange(start as int, k as int),
                decreases end - k,
            {
                word.push(chars[k]);
                k = k + 1;
                assert(word@ =~= chars@.subrange(start as int, k as int));
            }
            let ghost had = word_views(out@);
            out.push(word);
            assert(word_views(out@) =~= had.push(chars@.subrange(start as int, end as int)));
            assert(word_views(out@) + words_from(chars@, end as int) =~= had + words_from(
                chars@,
                start as int,
            ));
            i = end;
        }
    }
    assert(word_views(out@) + words_from(chars@, i as int) =~= word_views(out@));
    out
}

/// Whether two words are the same.
fn same_word(a: &Vec<char>, b: &Vec<char>) -> (same: bool)
    ensures
        same == (a@ == b@),
{
    if a.len() != b.len() {
        return false;
    }
    let mut i: usize = 0;
    while i < a.len()
        invariant
            i <= a@.len(),
            a@.len() == b@.len(),
            forall|k: int| 0 <= k < i ==> a@[k] == b@[k],
        decreases a@.len() - i,
    {
        if a[i] != b[i] {
            return false;
        }
        i = i + 1;
    }
    assert(a@ =~= b@);
    true
}

/// Whether `words` begins with the words of `prefix`.
pub fn starts_with(words: &Vec<Vec<char>>, prefix: &Vec<Vec<char>>) -> (does: bool)
    ensures
        does == begins_with(word_views(words@), word_views(prefix@)),
{
    if prefix.len() > words.len() {
        return false;
    }
    let mut i: usize = 0;
    while i < prefix.len()
        invariant
            i <= prefix@.len() <= words@.len(),
            forall|k: int|
                0 <= k < i ==> #[trigger] word_views(prefix@)[k] == word_views(words@)[k],
        decreases prefix@.len() - i,
    {
        if !same_word(&words[i], &prefix[i]) {
            assert(word_views(prefix@)[i as int] != word_views(words@)[i as int]);
            return false;
        }
        i = i + 1;
    }
    true
}

/// One language of the translation service. It holds the language's
/// code.
pub struct Language(pub &'static str);

/// The text that stands for a language in the arguments: for an even
/// `j` the code of language `j / 2` as the table has it, for an odd `j`
/// its name in lower case.
pub open spec fn candidate(languages: Seq<(&'static str, &'static str)>, j: int) -> Seq<char> {
    if j % 2 == 0 {
        languages[j / 2].0@
    } else {
        lowered(languages[j / 2].1@)
    }
}

/// Whether the arguments, in lower case, begin with the words of
/// `prefix`.
pub open spec fn names_language(arguments: Seq<char>, prefix: Seq<char>) -> bool {
    begins_with(words(lowered(arguments)), words(prefix))
}

/// The first candidate from `j` on that the arguments begin with.
pub open spec fn first_match(
    languages: Seq<(&'static str, &'static str)>,
    arguments: Seq<char>,
    j: int,
) -> Option<int>
    decreases 2 * languages.len() - j,
{
    if j < 0 || j >= 2 * languages.len() {
        None
    } else if names_language(arguments, candidate(languages, j)) {
        Some(j)
    } else {
        first_match(languages, arguments, j + 1)
    }
}

/// The language at the front of the arguments, with what is left over:
/// the language of the first candidate that the arguments begin with,
/// and the arguments without as many characters as that candidate has.
pub open spec fn language_of(languages: Seq<(&'static str, &'static str)>, arguments: Seq<char>)
    -> Result<(&'static str, Seq<char>), CommandError> {
    if words(lowered(arguments)).len() == 0 {
        Err(CommandError::MissingArgument)
    } else {
        match first_match(languages, arguments, 0) {
            Some(j) => Ok(
                (languages[j / 2].0, after_prefix(arguments, candidate(languages, j).len())),
            ),
            None => Err(CommandError::ArgumentParseError(ParseIssue::UnknownLanguage)),
        }
    }
}

/// What is left of `s` behind its first `n` characters; nothing where
/// it has no more than `n`.
pub open spec fn after_prefix(s: Seq<char>, n: nat) -> Seq<char> {
    if n <= s.len() {
        s.subrange(n as int, s.len() as int)
    } else {
        Seq::<char>::empty()
    }
}

/// What is left of `arguments` behind its first `n` characters.
fn rest_after<'a>(arguments: &'a str, n: usize) -> (rest: &'a str)
    ensures
        rest@ == after_prefix(arguments@, n as nat),
{
    let len = arguments.unicode_len();
    if n <= len {
        arguments.substring_char(n, len)
    } else {
        let rest = arguments.substring_char(len, len);
        assert(rest@ =~= Seq::<char>::empty());
        rest
    }
}

impl Language {
    /// Takes a language from the front of the arguments: the first of
    /// `languages`, code before name, whose words the arguments begin
    /// with once they are in lower case.
    pub fn convert<'a>(
        arguments: &'a str,
        languages: &[(&'static str, &'static str)],
    ) -> (converted: Result<(Self, &'a str), CommandError>)
        ensures
            match language_of(languages@, arguments@) {
                Ok((code, rest)) => converted is Ok && converted->Ok_0.0.0 == code
                    && converted->Ok_0.1@ == rest,
                Err(e) => converted is Err && converted->Err_0 == e,
            },
    {
        let chars = chars_of(arguments);
        let lower = lower_chars(&chars);
        let given = split_words(&lower);
        if given.len() == 0 {
            return Err(CommandError::MissingArgument);
        }
        let mut i: usize = 0;
        while i < languages.len()
            invariant
                i <= languages@.len(),
                given@.len() > 0,
                word_views(given@) == words(lowered(arguments@)),
                first_match(languages@, arguments@, 0) == first_match(
                    languages@,
                    arguments@,
                    2 * i,
                ),
            decreases languages@.len() - i,
        {
            let code: &'static str = languages[i].0;
            let name: &'static str = languages[i].1;
            let code_chars = chars_of(code);
            let code_words = split_words(&code_chars);
            assert(candidate(languages@, 2 * i) == code@);
            if starts_with(&given, &code_words) {
                assert((2 * i) / 2 == i);
                assert(first_match(languages@, arguments@, 2 * i) == Some(2 * i as int));
                return Ok((Language(code), rest_after(arguments, code_chars.len())));
            }
            let name_chars = chars_of(name);
            let name_lower = lower_chars(&name_chars);
            let name_words = split_words(&name_lower);
            assert(candidate(languages@, 2 * i + 1) == lowered(name@));
            assert(first_match(languages@, arguments@, 2 * i) == first_match(
                languages@,
                arguments@,
                2 * i + 1,
            ));
            if starts_with(&given, &name_words) {
                assert((2 * i + 1) / 2 == i);
                assert(first_match(languages@, arguments@, 2 * i + 1) == Some(2 * i + 1));
                return Ok((Language(code), rest_after(arguments, name_lower.len())));
            }
            i = i + 1;
        }
        Err(CommandError::ArgumentParseError(ParseIssue::UnknownLanguage))
    }
}

/// The language code that stands in where a user has none.
pub const DEFAULT_LANGUAGE: &'static str = "en";

/// The languages of a translation: the source, if it is given, and the
/// target.
pub struct SourceTargetLanguages(pub Option<&'static str>, pub Cow<'static, str>);

/// The target of a translation that names no language: the user's own
/// language, or English where the user has none.
pub open spec fn fallback_language(user_language: Seq<char>) -> Seq<char> {
    if user_language.len() == 0 {
        DEFAULT_LANGUAGE@
    } else {
        user_language
    }
}

/// The languages at the front of the arguments, with what is left
/// over: source and target where there are two, the target alone where
/// there is one, and the user's language as the target where there is
/// none.
pub open spec fn languages_of(
    languages: Seq<(&'static str, &'static str)>,
    arguments: Seq<char>,
    user_language: Seq<char>,
) -> (Option<&'static str>, Seq<char>, Seq<char>) {
    match language_of(languages, arguments) {
        Err(_) => (None, fallback_language(user_language), arguments),
        Ok((first, rest)) => match language_of(languages, rest) {
            Err(_) => (None, first@, rest),
            Ok((second, rest)) => (Some(first), second@, rest),
        },
    }
}

impl SourceTargetLanguages {
    /// Takes up to two languages from the front of the arguments.
    pub fn convert<'a>(
        arguments: &'a str,
        languages: &[(&'static str, &'static str)],
        user_language: &str,
    ) -> (converted: (Self, &'a str))
        ensures
            converted.0.0 == languages_of(languages@, arguments@, user_language@).0,
            converted.0.1@ == languages_of(languages@, arguments@, user_language@).1,
            converted.1@ == languages_of(languages@, arguments@, user_language@).2,
    {
        let (first, rest) = match Language::convert(arguments, languages) {
            Ok((Language(first), rest)) => (first, rest),
            Err(_) => {
                let target: Cow<'static, str> = if user_language.unicode_len() == 0 {
                    Cow::Borrowed(DEFAULT_LANGUAGE)
                } else {
                    Cow::Owned(user_language.to_owned())
                };
                return (SourceTargetLanguages(None, target), arguments);
            },
        };
        match Language::convert(rest, languages) {
            Ok((Language(second), rest)) => (
                SourceTargetLanguages(Some(first), Cow::Borrowed(second)),
                rest,
            ),
            Err(_) => (SourceTargetLanguages(None, Cow::Borrowed(first)), rest),
        }
    }
}

} // verus!
