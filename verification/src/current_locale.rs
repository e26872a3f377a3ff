use vstd::prelude::*;
use vstd::string::*;

verus! {

/// The locale that stands in where none is named: `en-US`.
pub open spec fn default_locale() -> Seq<char> {
    seq!['e', 'n', '-', 'U', 'S']
}

/// Whether a character ends the language code of a Unix locale value: the
/// dot before a character set, as in `en_US.UTF-8`, or a space.
pub open spec fn ends_code(c: char) -> bool {
    c == ' ' || c == '.'
}

/// The place, from `from` on, of the first character that ends the language
/// code; the length of the text if there is none.
pub open spec fn code_end_from(raw: Seq<char>, from: int) -> int
    decreases raw.len() - from,
{
    if from >= raw.len() {
        raw.len() as int
    } else if ends_code(raw[from]) {
        from
    } else {
        code_end_from(raw, from + 1)
    }
}

/// The place, from `from` on, of the first `@`; the length of the text if
/// there is none.
pub open spec fn modifier_start_from(code: Seq<char>, from: int) -> int
    decreases code.len() - from,
{
    if from >= code.len() {
        code.len() as int
    } else if code[from] == '@' {
        from
    } else {
        modifier_start_from(code, from + 1)
    }
}

/// A text with a hyphen in the place of each underscore.
pub open spec fn dashed(code: Seq<char>) -> Seq<char> {
    Seq::new(
        code.len(),
        |i: int|
            if code[i] == '_' {
                '-'
            } else {
                code[i]
            },
    )
}

/// The IETF language code of a Unix locale value: what stands before the
/// first dot or space, with hyphens for underscores, up to an `@`. A value
/// without dot and space gives the default.
pub open spec fn ietf_code(raw: Seq<char>) -> Seq<char> {
    let end = code_end_from(raw, 0);
    if end < raw.len() {
        let code = dashed(raw.take(end));
        code.take(modifier_start_from(code, 0))
    } else {
        default_locale()
    }
}

/// The search for the end of the code stops at a character that ends it,
/// and at none before.
pub proof fn lemma_code_end(raw: Seq<char>, from: int)
    requires
        0 <= from <= raw.len(),
    ensures
        from <= code_end_from(raw, from) <= raw.len(),
        code_end_from(raw, from) < raw.len() ==> ends_code(raw[code_end_from(raw, from)]),
        forall|i: int| from <= i < code_end_from(raw, from) ==> !ends_code(#[trigger] raw[i]),
    decreases raw.len() - from,
{
    if from < raw.len() && !ends_code(raw[from]) {
        lemma_code_end(raw, from + 1);
    }
}

/// The search for the modifier stops at an `@`, and at none before.
pub proof fn lemma_modifier_start(code: Seq<char>, from: int)
    requires
        0 <= from <= code.len(),
    ensures
        from <= modifier_start_from(code, from) <= code.len(),
        modifier_start_from(code, from) < code.len() ==> code[modifier_start_from(code, from)]
            == '@',
        forall|i: int| from <= i < modifier_start_from(code, from) ==> #[trigger] code[i] != '@',
    decreases code.len() - from,
{
    if from < code.len() && code[from] != '@' {
        lemma_modifier_start(code, from + 1);
    }
}

/// The default locale as a text.
fn default_locale_text() -> (locale: String)
    ensures
        locale@ == default_locale(),
{
    proof {
        reveal_strlit("en-US");
    }
    let locale = String::from_str("en-US");
    assert(locale@ =~= default_locale());
    locale
}

/// Normalizes a Unix locale value to an IETF language code.
pub fn normalize_to_ietf(raw: &str) -> (code: String)
    ensures
        code@ == ietf_code(raw@),
{
    let len = raw.unicode_len();
    let mut end: usize = 0;
    while end < len && !(raw.get_char(end) == ' ' || raw.get_char(end) == '.')
        invariant
            end <= len,
            len == raw@.len(),
            code_end_from(raw@, 0) == code_end_from(raw@, end as int),
        decreases len - end,
    {
        end = end + 1;
    }
    if end >= len {
        return default_locale_text();
    }
    let ghost wanted = dashed(raw@.take(end as int));
    proof {
        reveal_strlit("-");
    }
    let mut code = String::new();
    let mut i: usize = 0;
    while i < end
        invariant
            i <= end < len,
            len == raw@.len(),
            code_end_from(raw@, 0) == end,
            wanted == dashed(raw@.take(end as int)),
            code@ == wanted.take(i as int),
            modifier_start_from(wanted, 0) == modifier_start_from(wanted, i as int),
            "-"@ == seq!['-'],
        decreases end - i,
    {
        let c = raw.get_char(i);
        assert(raw@.take(end as int)[i as int] == c);
        if c == '@' {
            assert(wanted[i as int] == '@');
            return code;
        }
        if c == '_' {
            code.append("-");
        } else {
            code.append(raw.substring_char(i, i + 1));
        }
        assert(code@ =~= wanted.take(i + 1));
        i = i + 1;
    }
    assert(wanted.take(end as int) =~= wanted);
    code
}

/// The locale that a value of the `LANG` variable names: the default where
/// the variable is not set or holds `C`, else the value's language code.
pub open spec fn locale_of_lang(lang: Option<Seq<char>>) -> Seq<char> {
    match lang {
        Some(raw) => if raw == seq!['C'] {
            default_locale()
        } else {
            ietf_code(raw)
        },
        None => default_locale(),
    }
}

/// The current locale, from the value of the `LANG` variable, if it is set.
pub fn current_locale_of(lang: Option<&str>) -> (locale: String)
    ensures
        locale@ == locale_of_lang(
            match lang {
                Some(raw) => Some(raw@),
                None => None,
            },
        ),
{
    match lang {
        Some(raw_lang) => {
            if raw_lang.unicode_len() == 1 && raw_lang.get_char(0) == 'C' {
                assert(raw_lang@ =~= seq!['C']);
                default_locale_text()
            } else {
                normalize_to_ietf(raw_lang)
            }
        },
        None => default_locale_text(),
    }
}

} // verus!
