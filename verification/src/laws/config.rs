//! What the values of a configuration mean.
use vstd::arithmetic::power::pow;
use vstd::prelude::*;

use crate::eol::{
    is_error, is_settings_error, setting_error, setting_of, EolConversionSettings, EolError, ErrorSource,
};
use crate::git::{
    auto_crlf_of, configured_auto_crlf, decimal, is_word, root_layers, signed_decimal, AutoCrlf,
};
use crate::plumbing::config_values;
use crate::settings::{ConfigGetError, ConfigValue};

verus! {

/// Each setting has one word, in lower case, and nothing else stands for it.
pub proof fn law_setting_words(value: ConfigValue)
    ensures
        setting_of(value) == Some(EolConversionSettings::NoConversion) <==> (
        value matches ConfigValue::String(s) && s@ == "none"@),
        setting_of(value) == Some(EolConversionSettings::Input) <==> (
        value matches ConfigValue::String(s) && s@ == "input"@),
        setting_of(value) == Some(EolConversionSettings::InputOutput) <==> (
        value matches ConfigValue::String(s) && s@ == "input-output"@),
{
    reveal_strlit("none");
    reveal_strlit("input");
    reveal_strlit("input-output");
    assert("none"@.len() == 4 && "input"@.len() == 5 && "input-output"@.len() == 12);
}

/// The error on a value that stands for no setting says so, and carries the name
/// of the setting and an error that has no other cause. That one says which text
/// was not recognized, or that the value is not a text.
pub proof fn law_setting_errors(error: EolError, value: ConfigValue)
    ensures
        is_settings_error(error, value) ==> {
            &&& setting_of(value) is None
            &&& error.message@ == "failed to retrieve the working-copy.eol-conversion setting"@
            &&& error.source matches Some(source)
            &&& *source matches ErrorSource::Config(ConfigGetError::Type { name, error: inner })
            &&& name@ == "working-copy.eol-conversion"@
            &&& inner.source is None
            &&& inner.message@ == setting_error(value)
        },
        value matches ConfigValue::String(s) ==> setting_error(value)
            == "unrecognized working-copy.eol-conversion value: "@ + s@,
        !(value is String) ==> setting_error(value)
            == "the working-copy.eol-conversion setting can't be casted to a string"@,
{
}

/// An error that comes from another one has that as its source, and its own
/// message.
pub proof fn law_errors(error: EolError, message: Seq<char>, source: ErrorSource)
    ensures
        is_error(error, message, source) <==> error.message@ == message && (
        error.source matches Some(from) && *from == source),
{
}

/// The bytes of a word.
pub open spec fn ascii(word: Seq<char>) -> Seq<u8> {
    word.map_values(|c: char| c as u8)
}

/// The bytes with the letters from `A` to `Z` in lower case.
pub open spec fn in_lower_case(value: Seq<u8>) -> Seq<u8> {
    value.map_values(
        |b: u8|
            if 65 <= b <= 90 {
                (b + 32) as u8
            } else {
                b
            },
    )
}

proof fn lemma_word(value: Seq<u8>, word: Seq<char>)
    requires
        forall|i: int| 0 <= i < word.len() ==> 'a' <= #[trigger] word[i] <= 'z',
    ensures
        is_word(value, word) <==> in_lower_case(value) == ascii(word),
{
    let lower = in_lower_case(value);
    if is_word(value, word) {
        assert forall|i: int| 0 <= i < word.len() implies lower[i] == ascii(word)[i] by {
            assert(value[i] == word[i] as u8 || value[i] + 32 == word[i] as u8);
        }
        assert(lower =~= ascii(word));
    }
    if lower == ascii(word) {
        assert(value.len() == lower.len());
        assert forall|i: int| 0 <= i < word.len() implies (#[trigger] value[i] == word[i] as u8
            || value[i] + 32 == word[i] as u8) by {
            assert(lower[i] == ascii(word)[i]);
        }
    }
}

/// The words that `core.autocrlf` may be: `input` in lower case alone, and the
/// words for true and false in any case. A value that is empty means false.
pub proof fn law_auto_crlf_words(value: Seq<u8>)
    ensures
        ({
            let lower = in_lower_case(value);
            &&& auto_crlf_of(value) == Some(AutoCrlf::Input) <==> value == ascii("input"@)
            &&& lower == ascii("yes"@) || lower == ascii("on"@) || lower == ascii("true"@)
                ==> auto_crlf_of(value) == Some(AutoCrlf::Enabled)
            &&& lower == ascii("no"@) || lower == ascii("off"@) || lower == ascii("false"@)
                || value.len() == 0 ==> auto_crlf_of(value) == Some(AutoCrlf::Disabled)
        }),
{
    reveal_strlit("input");
    reveal_strlit("yes");
    reveal_strlit("on");
    reveal_strlit("true");
    reveal_strlit("no");
    reveal_strlit("off");
    reveal_strlit("false");
    lemma_word(value, "yes"@);
    lemma_word(value, "on"@);
    lemma_word(value, "true"@);
    lemma_word(value, "no"@);
    lemma_word(value, "off"@);
    lemma_word(value, "false"@);
    assert(ascii("input"@).len() == 5);
    assert(ascii("input"@)[0] == 105);
    assert(in_lower_case(value).len() == value.len());
    assert(ascii("no"@)[1] == 111 && ascii("on"@)[1] == 110);
    assert(ascii("off"@)[0] == 111 && ascii("yes"@)[0] == 121);
    assert(ascii("false"@).len() == 5 && ascii("false"@)[0] == 102);
    assert(ascii("true"@).len() == 4);
    if value == ascii("input"@) {
        assert(in_lower_case(value)[0] == 105);
    }
}

proof fn lemma_decimal(digits: Seq<u8>)
    ensures
        decimal(digits) is Some <==> digits.len() > 0 && forall|i: int|
            0 <= i < digits.len() ==> 48 <= #[trigger] digits[i] <= 57,
        decimal(digits) matches Some(n) ==> {
            &&& 0 <= n < pow(10, digits.len())
            &&& n == 0 <==> forall|i: int| 0 <= i < digits.len() ==> #[trigger] digits[i] == 48
        },
    decreases digits.len(),
{
    reveal(pow);
    if digits.len() > 0 {
        let before = digits.drop_last();
        let k = digits.len() - 1;
        lemma_decimal(before);
        assert forall|i: int| 0 <= i < k implies before[i] == #[trigger] digits[i] by {}
        assert(pow(10, digits.len()) == 10 * pow(10, before.len()));
        assert(pow(10, 0) == 1);
        if before.len() > 0 {
            assert((forall|i: int| 0 <= i < digits.len() ==> 48 <= #[trigger] digits[i] <= 57) <==> (
            forall|i: int| 0 <= i < before.len() ==> 48 <= #[trigger] before[i] <= 57) && 48
                <= digits[k] <= 57) by {
                if forall|i: int| 0 <= i < digits.len() ==> 48 <= #[trigger] digits[i] <= 57 {
                    assert forall|i: int| 0 <= i < before.len() implies 48 <= #[trigger] before[i]
                        <= 57 by {
                        assert(48 <= digits[i] <= 57);
                    }
                    assert(48 <= digits[k] <= 57);
                }
            }
            assert((forall|i: int| 0 <= i < digits.len() ==> #[trigger] digits[i] == 48) <==> (
            forall|i: int| 0 <= i < before.len() ==> #[trigger] before[i] == 48) && digits[k]
                == 48) by {
                if forall|i: int| 0 <= i < digits.len() ==> #[trigger] digits[i] == 48 {
                    assert forall|i: int| 0 <= i < before.len() implies #[trigger] before[i]
                        == 48 by {
                        assert(digits[i] == 48);
                    }
                    assert(digits[k] == 48);
                }
            }
        } else {
            assert(digits[0] == digits.last());
        }
    }
}

/// A number in `core.autocrlf` means false if it is zero, and else true, with or
/// without a sign; one of 18 digits always fits. A sign before anything but
/// digits has no meaning.
pub proof fn law_auto_crlf_numbers(sign: Seq<u8>, digits: Seq<u8>)
    requires
        sign == Seq::<u8>::empty() || sign == seq![43u8] || sign == seq![45u8],
        sign.len() == 0 ==> digits.len() > 0 && 48 <= digits[0] <= 57,
    ensures
        digits.len() > 0 && (forall|i: int| 0 <= i < digits.len() ==> #[trigger] digits[i] == 48)
            ==> auto_crlf_of(sign + digits) == Some(AutoCrlf::Disabled),
        digits.len() <= 18 && (forall|i: int|
            0 <= i < digits.len() ==> 48 <= #[trigger] digits[i] <= 57) && (exists|i: int|
            0 <= i < digits.len() && #[trigger] digits[i] != 48) ==> auto_crlf_of(sign + digits)
            == Some(AutoCrlf::Enabled),
        digits.len() == 0 || (exists|i: int|
            0 <= i < digits.len() && !(48 <= #[trigger] digits[i] <= 57)) ==> auto_crlf_of(
            sign + digits,
        ) is None,
{
    let value = sign + digits;
    lemma_not_a_word(value);
    lemma_decimal(digits);
    if sign.len() == 0 {
        assert(value =~= digits);
    } else {
        assert(value[0] == sign[0]);
        assert(value.skip(1) =~= digits);
    }
    if digits.len() <= 18 {
        lemma_pow_18(digits.len() as int);
    }
}

proof fn lemma_pow_18(k: int)
    requires
        0 <= k <= 18,
    ensures
        pow(10, k as nat) <= 1_000_000_000_000_000_000,
{
    reveal(pow);
    reveal_with_fuel(pow, 20);
}

/// What starts with a sign or a digit is no word.
proof fn lemma_not_a_word(value: Seq<u8>)
    requires
        value.len() > 0,
        value[0] < 65,
    ensures
        auto_crlf_of(value) == (match signed_decimal(value) {
            Some(n) => if n == 0 {
                Some(AutoCrlf::Disabled)
            } else {
                Some(AutoCrlf::Enabled)
            },
            None => None,
        }),
{
    reveal_strlit("input");
    reveal_strlit("yes");
    reveal_strlit("on");
    reveal_strlit("true");
    reveal_strlit("no");
    reveal_strlit("off");
    reveal_strlit("false");
    assert(ascii("input"@)[0] == 105);
}

/// A configuration without `core.autocrlf` gives it no state; one with it gives it
/// the state that the value stands for. At first there is the root directory
/// alone, without any line.
pub proof fn law_configured(config: gix::config::File<'static>)
    ensures
        !config_values(config).contains_key("core.autocrlf"@) ==> configured_auto_crlf(
            config,
        ) is None,
        config_values(config).contains_key("core.autocrlf"@) ==> configured_auto_crlf(config)
            == auto_crlf_of(config_values(config)["core.autocrlf"@]),
        root_layers().len() == 1 && root_layers()[0].prefix.len() == 0
            && root_layers()[0].lines.len() == 0,
{
}

} // verus!
