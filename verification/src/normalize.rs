//! Text normalization: case folding, trimming, Unicode normal forms and the
//! removal of diacritics and punctuation.

use crate::text::{push_all, str_eq};
use unicode_categories::UnicodeCategories;
use unicode_normalization::UnicodeNormalization;
use vstd::prelude::*;

verus! {

/// The lowercase mapping of a code point, as `char::to_lowercase` yields it.
pub uninterp spec fn lowercase_of(c: char) -> Seq<char>;

/// Whether a code point has the Unicode property `White_Space`, as
/// `char::is_whitespace` reports it.
pub uninterp spec fn is_white_space(c: char) -> bool;

/// Whether a code point is alphabetic or numeric, as `char::is_alphanumeric`
/// reports it.
pub uninterp spec fn is_alphanumeric_char(c: char) -> bool;

/// Whether a code point is of the general category "Mark, Nonspacing", as
/// `unicode_categories` reports it.
pub uninterp spec fn is_nonspacing_mark(c: char) -> bool;

/// Normalization Form C of a sequence of code points, as
/// `unicode_normalization` computes it.
pub uninterp spec fn nfc_of(s: Seq<char>) -> Seq<char>;

/// Normalization Form KD of a sequence of code points, as
/// `unicode_normalization` computes it.
pub uninterp spec fn nfkd_of(s: Seq<char>) -> Seq<char>;

/// `s` without its leading white space.
pub open spec fn trim_start_of(s: Seq<char>) -> Seq<char>
    decreases s.len(),
{
    if s.len() > 0 && is_white_space(s.first()) {
        trim_start_of(s.drop_first())
    } else {
        s
    }
}

/// `s` without its trailing white space.
pub open spec fn trim_end_of(s: Seq<char>) -> Seq<char>
    decreases s.len(),
{
    if s.len() > 0 && is_white_space(s.last()) {
        trim_end_of(s.drop_last())
    } else {
        s
    }
}

/// `s` without leading and trailing white space.
pub open spec fn trimmed(s: Seq<char>) -> Seq<char> {
    trim_end_of(trim_start_of(s))
}

/// `char::is_whitespace` tells whether the code point has the property
/// `White_Space`.
pub assume_specification[ char::is_whitespace ](c: char) -> (r: bool)
    ensures
        r == is_white_space(c),
;

/// `char::is_alphanumeric` tells whether the code point is alphabetic or
/// numeric.
pub assume_specification[ char::is_alphanumeric ](c: char) -> (r: bool)
    ensures
        r == is_alphanumeric_char(c),
;

/// `str::trim` returns the slice left when leading and trailing code points
/// with the property `White_Space` are removed.
pub assume_specification[ str::trim ](s: &str) -> (r: &str)
    ensures
        r@ == trimmed(s@),
;

/// Calls `char::to_lowercase` and collects what it yields. Trusted: the
/// result is the lowercase mapping of `c`.
#[verifier::external_body]
fn to_lowercase(c: char) -> (v: Vec<char>)
    ensures
        v@ == lowercase_of(c),
{
    c.to_lowercase().collect()
}

/// Calls `UnicodeCategories::is_mark_nonspacing` of `unicode_categories`.
/// Trusted: the result tells whether `c` is a nonspacing mark.
#[verifier::external_body]
fn is_mark_nonspacing(c: char) -> (r: bool)
    ensures
        r == is_nonspacing_mark(c),
{
    c.is_mark_nonspacing()
}

/// Calls `UnicodeNormalization::nfc` of `unicode_normalization` on the
/// string and collects what it yields. Trusted: the result is the string in
/// Normalization Form C.
#[verifier::external_body]
fn to_nfc(s: &str) -> (r: String)
    ensures
        r@ == nfc_of(s@),
{
    s.nfc().collect::<String>()
}

/// Calls `UnicodeNormalization::nfkd` of `unicode_normalization` on the
/// string and collects what it yields. Trusted: the result is the string in
/// Normalization Form KD.
#[verifier::external_body]
fn to_nfkd(s: &str) -> (r: String)
    ensures
        r@ == nfkd_of(s@),
{
    s.nfkd().collect::<String>()
}

/// Capital I with dot above.
pub const DOTTED_CAPITAL_I: char = '\u{130}';

/// Small dotless i.
pub const DOTLESS_SMALL_I: char = '\u{131}';

/// Combining dot above.
pub const COMBINING_DOT_ABOVE: char = '\u{307}';

/// Small sharp s.
pub const SHARP_S: char = '\u{df}';

/// The case folding of one code point. Capital I with dot above becomes `i`
/// followed by a combining dot above, or plain `i` under Turkic rules;
/// capital `I` becomes dotless `i` under Turkic rules; sharp s becomes `ss`;
/// every other code point takes its lowercase mapping.
pub open spec fn fold_char(c: char, turkic: bool) -> Seq<char> {
    if c == DOTTED_CAPITAL_I {
        if turkic {
            seq!['i']
        } else {
            seq!['i', COMBINING_DOT_ABOVE]
        }
    } else if c == 'I' && turkic {
        seq![DOTLESS_SMALL_I]
    } else if c == SHARP_S {
        seq!['s', 's']
    } else {
        lowercase_of(c)
    }
}

/// The case folding of a sequence: the foldings of its code points in order.
pub open spec fn case_folded(s: Seq<char>, turkic: bool) -> Seq<char>
    decreases s.len(),
{
    if s.len() == 0 {
        Seq::empty()
    } else {
        case_folded(s.drop_last(), turkic) + fold_char(s.last(), turkic)
    }
}

/// `s` without its nonspacing marks.
pub open spec fn without_marks(s: Seq<char>) -> Seq<char>
    decreases s.len(),
{
    if s.len() == 0 {
        Seq::empty()
    } else if is_nonspacing_mark(s.last()) {
        without_marks(s.drop_last())
    } else {
        without_marks(s.drop_last()).push(s.last())
    }
}

/// The alphanumeric and white space code points of `s`, in order.
pub open spec fn letters_and_spaces(s: Seq<char>) -> Seq<char>
    decreases s.len(),
{
    if s.len() == 0 {
        Seq::empty()
    } else if is_alphanumeric_char(s.last()) || is_white_space(s.last()) {
        letters_and_spaces(s.drop_last()).push(s.last())
    } else {
        letters_and_spaces(s.drop_last())
    }
}

/// Whether a locale tag asks for Turkic case folding: `tr` and `az` do,
/// every other tag and no tag do not.
pub open spec fn turkic_locale(locale: Option<Seq<char>>) -> bool {
    locale == Some("tr"@) || locale == Some("az"@)
}

/// How much a text is normalized before it is compared.
#[derive(Clone, Copy, Debug, PartialEq, Eq)]
pub enum NormalizationPreset {
    /// The text is left as it is.
    Verbatim,
    /// Trimmed and composed.
    Minimal,
    /// Case folded, trimmed and composed.
    Standard,
    /// Case folded, decomposed, stripped of diacritics and of everything but
    /// letters, digits and white space, and trimmed.
    Aggressive,
}

/// The preset that a name stands for, if any.
pub open spec fn preset_named(name: Seq<char>) -> Option<NormalizationPreset> {
    if name == "none"@ {
        Some(NormalizationPreset::Verbatim)
    } else if name == "minimal"@ {
        Some(NormalizationPreset::Minimal)
    } else if name == "default"@ {
        Some(NormalizationPreset::Standard)
    } else if name == "aggressive"@ {
        Some(NormalizationPreset::Aggressive)
    } else {
        None
    }
}

/// The normalized form of `s` under a preset.
pub open spec fn normalized(s: Seq<char>, preset: NormalizationPreset, turkic: bool) -> Seq<char> {
    match preset {
        NormalizationPreset::Verbatim => s,
        NormalizationPreset::Minimal => nfc_of(trimmed(s)),
        NormalizationPreset::Standard => nfc_of(trimmed(case_folded(s, turkic))),
        NormalizationPreset::Aggressive => trimmed(
            letters_and_spaces(without_marks(nfkd_of(case_folded(s, turkic)))),
        ),
    }
}

/// The normalized form of `s` under the preset of the given name; a name
/// that stands for no preset leaves `s` as it is.
pub open spec fn normalized_by_name(s: Seq<char>, preset: Seq<char>, turkic: bool) -> Seq<char> {
    match preset_named(preset) {
        Some(p) => normalized(s, p, turkic),
        None => s,
    }
}

/// Looks up a preset by its name: `none`, `minimal`, `default` or
/// `aggressive`.
pub fn preset_from_name(name: &str) -> (r: Option<NormalizationPreset>)
    ensures
        r == preset_named(name@),
{
    if str_eq(name, "none") {
        Some(NormalizationPreset::Verbatim)
    } else if str_eq(name, "minimal") {
        Some(NormalizationPreset::Minimal)
    } else if str_eq(name, "default") {
        Some(NormalizationPreset::Standard)
    } else if str_eq(name, "aggressive") {
        Some(NormalizationPreset::Aggressive)
    } else {
        None
    }
}

/// Whether the locale tag asks for Turkic case folding.
pub fn is_turkic(locale: Option<&str>) -> (r: bool)
    ensures
        r == turkic_locale(
            match locale {
                Some(l) => Some(l@),
                None => None,
            },
        ),
{
    match locale {
        Some(l) => str_eq(l, "tr") || str_eq(l, "az"),
        None => false,
    }
}

/// Appends the case folding of `c` to `out`.
fn push_folded(out: &mut String, c: char, turkic: bool)
    ensures
        final(out)@ == old(out)@ + fold_char(c, turkic),
{
    if c == DOTTED_CAPITAL_I {
        out.push('i');
        if !turkic {
            out.push(COMBINING_DOT_ABOVE);
        }
        assert(out@ =~= old(out)@ + fold_char(c, turkic));
    } else if c == 'I' && turkic {
        out.push(DOTLESS_SMALL_I);
        assert(out@ =~= old(out)@ + fold_char(c, turkic));
    } else if c == SHARP_S {
        out.push('s');
        out.push('s');
        assert(out@ =~= old(out)@ + fold_char(c, turkic));
    } else {
        let lower = to_lowercase(c);
        push_all(out, &lower);
    }
}

fn fold(s: &str, turkic: bool) -> (r: String)
    ensures
        r@ == case_folded(s@, turkic),
{
    let mut out = String::new();
    let ghost mut seen: Seq<char> = Seq::empty();
    for c in it: s.chars()
        invariant
            seen == it.seq().take(it.index() as int),
            out@ == case_folded(seen, turkic),
    {
        let ghost before = seen;
        proof {
            seen = seen.push(c);
        }
        let ghost after = seen;
        assert(after =~= it.seq().take(it.index() + 1));
        push_folded(&mut out, c, turkic);
        proof {
            assert(after.drop_last() =~= before);
            assert(after.last() == c);
        }
    }
    assert(seen =~= s@);
    out
}

/// Case folding with the default rules: capital I with dot above becomes `i`
/// followed by a combining dot above, sharp s becomes `ss`, and every other
/// code point takes its lowercase mapping.
pub fn case_fold(s: &str) -> (r: String)
    ensures
        r@ == case_folded(s@, false),
{
    fold(s, false)
}

/// Case folding under an optional locale: `tr` and `az` select the Turkic
/// treatment of dotted and dotless i; `lt`, any other tag and no tag select
/// the default rules.
pub fn case_fold_with_locale(s: &str, locale: Option<&str>) -> (r: String)
    ensures
        r@ == case_folded(
            s@,
            turkic_locale(
                match locale {
                    Some(l) => Some(l@),
                    None => None,
                },
            ),
        ),
{
    let turkic = is_turkic(locale);
    fold(s, turkic)
}

fn strip_marks(s: &str) -> (r: String)
    ensures
        r@ == without_marks(s@),
{
    let mut out = String::new();
    let ghost mut seen: Seq<char> = Seq::empty();
    for c in it: s.chars()
        invariant
            seen == it.seq().take(it.index() as int),
            out@ == without_marks(seen),
    {
        let ghost before = seen;
        proof {
            seen = seen.push(c);
        }
        let ghost after = seen;
        assert(after =~= it.seq().take(it.index() + 1));
        proof {
            assert(after.drop_last() =~= before);
            assert(after.last() == c);
        }
        if !is_mark_nonspacing(c) {
            out.push(c);
        }
    }
    assert(seen =~= s@);
    out
}

fn keep_letters_and_spaces(s: &str) -> (r: String)
    ensures
        r@ == letters_and_spaces(s@),
{
    let mut out = String::new();
    let ghost mut seen: Seq<char> = Seq::empty();
    for c in it: s.chars()
        invariant
            seen == it.seq().take(it.index() as int),
            out@ == letters_and_spaces(seen),
    {
        let ghost before = seen;
        proof {
            seen = seen.push(c);
        }
        let ghost after = seen;
        assert(after =~= it.seq().take(it.index() + 1));
        proof {
            assert(after.drop_last() =~= before);
            assert(after.last() == c);
        }
        if c.is_alphanumeric() || c.is_whitespace() {
            out.push(c);
        }
    }
    assert(seen =~= s@);
    out
}

/// Normalizes `s` under a preset, with Turkic case folding if asked for.
pub fn normalize_preset(s: &str, preset: NormalizationPreset, turkic: bool) -> (r: String)
    ensures
        r@ == normalized(s@, preset, turkic),
{
    match preset {
        NormalizationPreset::Verbatim => s.to_owned(),
        NormalizationPreset::Minimal => to_nfc(s.trim()),
        NormalizationPreset::Standard => {
            let folded = fold(s, turkic);
            to_nfc(folded.as_str().trim())
        },
        NormalizationPreset::Aggressive => {
            let folded = fold(s, turkic);
            let decomposed = to_nfkd(folded.as_str());
            let bare = strip_marks(decomposed.as_str());
            let kept = keep_letters_and_spaces(bare.as_str());
            kept.as_str().trim().to_owned()
        },
    }
}

/// Normalizes `s` under the preset named `preset` and the default case
/// folding rules. A name that stands for no preset leaves `s` as it is.
pub fn normalize(s: &str, preset: &str) -> (r: String)
    ensures
        r@ == normalized_by_name(s@, preset@, false),
{
    normalize_with_locale(s, preset, None)
}

/// Normalizes `s` under the preset named `preset` and the case folding rules
/// of the given locale. A name that stands for no preset leaves `s` as it
/// is; a locale other than `tr` and `az` selects the default rules.
pub fn normalize_with_locale(s: &str, preset: &str, locale: Option<String>) -> (r: String)
    ensures
        r@ == normalized_by_name(
            s@,
            preset@,
            turkic_locale(
                match locale {
                    Some(l) => Some(l@),
                    None => None,
                },
            ),
        ),
{
    let turkic = match &locale {
        Some(l) => is_turkic(Some(l.as_str())),
        None => false,
    };
    match preset_from_name(preset) {
        Some(p) => normalize_preset(s, p, turkic),
        None => s.to_owned(),
    }
}

} // verus!
