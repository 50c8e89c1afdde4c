//! Drawing a password that meets a requirements record.

use crate::charset::{
    all_in_category, all_password_chars, category_count, charset, charset_char, in_category,
    is_password_char, lemma_charset_is_category, lemma_count_concat, lemma_count_empty,
    lemma_count_uniform, lemma_counts_cover, lemma_reordered, Category, ALL_DIGITS, ALL_LOWERCASE,
    ALL_UPPERCASE, AUTHORIZED_SYMBOLS,
};
use crate::random::{random_index, shuffle_chars};
use crate::requirements::{CategoryCounts, PasswordRequirements};
use vstd::prelude::*;
use vstd::string::{StrSliceExecFns, StringExecFns};

verus! {

/// The number of characters of each category in `text`.
pub open spec fn counts_of(text: Seq<char>) -> CategoryCounts {
    CategoryCounts {
        lowercase: category_count(text, Category::Lowercase),
        capitals: category_count(text, Category::Capital),
        digits: category_count(text, Category::Digit),
        symbols: category_count(text, Category::Symbol),
    }
}

/// The characters of `text`, in order.
pub fn chars_of(text: &str) -> (chars: Vec<char>)
    ensures
        chars@ == text@,
{
    let mut chars: Vec<char> = Vec::new();
    for c in it: text.chars()
        invariant
            chars@ == it.seq().take(it.index()),
    {
        chars.push(c);
    }
    chars
}

/// The string made of `chars`, in order.
pub fn string_from_chars(chars: &Vec<char>) -> (text: String)
    ensures
        text@ == chars@,
{
    let mut text = String::new();
    let mut i: usize = 0;
    while i < chars.len()
        invariant
            i <= chars.len(),
            text@ == chars@.take(i as int),
        decreases chars.len() - i,
    {
        text.push(chars[i]);
        i += 1;
    }
    text
}

/// Draws `length` characters from `charset`, one position of `charset` at a
/// time.
///
/// The contract states how long the sample is and where its characters come
/// from. Which positions are drawn is up to the generator of the `rand` crate:
/// that each is drawn independently and with the same chance is its promise,
/// not a statement of this contract.
pub fn generate_string_from_charset(charset: &str, length: u32) -> (sample: String)
    requires
        length > 0 ==> charset@.len() > 0,
    ensures
        sample@.len() == length,
        forall|i: int| 0 <= i < sample@.len() ==> charset@.contains(#[trigger] sample@[i]),
{
    let mut rng = rand::thread_rng();
    let charset_len: usize = charset.unicode_len();
    let mut sample = String::new();
    let mut drawn: u32 = 0;
    while drawn < length
        invariant
            drawn <= length,
            charset_len == charset@.len(),
            length > 0 ==> charset_len > 0,
            sample@.len() == drawn,
            forall|i: int| 0 <= i < sample@.len() ==> charset@.contains(#[trigger] sample@[i]),
        decreases length - drawn,
    {
        let index: usize = random_index(&mut rng, charset_len);
        let c = charset_char(charset, index);
        sample.push(c);
        drawn += 1;
    }
    sample
}

/// Appending a sample drawn from the character set of `own` raises the count
/// of `own` by the sample's length and leaves the other counts as they are;
/// and the longer text holds password characters only if `text` did.
proof fn lemma_append_sample(text: Seq<char>, sample: Seq<char>, own: Category)
    requires
        forall|i: int| 0 <= i < sample.len() ==> charset(own).contains(#[trigger] sample[i]),
    ensures
        all_in_category(sample, own),
        all_password_chars(text) ==> all_password_chars(text + sample),
        forall|category: Category|
            category_count(text + sample, category) == #[trigger] category_count(text, category)
                + (if category == own {
                sample.len()
            } else {
                0
            }),
{
    lemma_charset_is_category(own);
    assert forall|i: int| 0 <= i < sample.len() implies is_password_char(#[trigger] sample[i]) by {
        assert(in_category(sample[i], own));
    }
    assert forall|category: Category|
        category_count(text + sample, category) == #[trigger] category_count(text, category)
            + (if category == own {
            sample.len()
        } else {
            0
        }) by {
        lemma_count_uniform(sample, own, category);
        lemma_count_concat(text, sample, category);
    }
}

/// Draws a password that meets `requirements`: as many characters of each
/// category as the record asks for, each drawn from the category's character
/// set, in an order that is shuffled at random. There is no record for which
/// this fails; the record without characters gives the empty password.
///
/// The contract states the length of the password and its counts by
/// category. That every order is as likely as any other rests on the shuffle
/// of the `rand` crate and is not a statement of this contract.
pub fn generate_password_from_requirements(requirements: PasswordRequirements) -> (password: String)
    ensures
        password@.len() == requirements@.total(),
        counts_of(password@) == requirements@,
        all_password_chars(password@),
        requirements@.total() == 0 ==> password@ == Seq::<char>::empty(),
{
    let mut concatenated = String::new();
    let mut rng = rand::thread_rng();
    proof {
        lemma_count_empty(Category::Lowercase);
        lemma_count_empty(Category::Capital);
        lemma_count_empty(Category::Digit);
        lemma_count_empty(Category::Symbol);
        lemma_charset_is_category(Category::Lowercase);
        lemma_charset_is_category(Category::Capital);
        lemma_charset_is_category(Category::Digit);
        lemma_charset_is_category(Category::Symbol);
    }

    if requirements.lowercase() != 0 {
        let generated = generate_string_from_charset(ALL_LOWERCASE, requirements.lowercase());
        proof {
            lemma_append_sample(concatenated@, generated@, Category::Lowercase);
        }
        concatenated.append(generated.as_str());
    }

    if requirements.capitals() != 0 {
        let generated = generate_string_from_charset(ALL_UPPERCASE, requirements.capitals());
        proof {
            lemma_append_sample(concatenated@, generated@, Category::Capital);
        }
        concatenated.append(generated.as_str());
    }

    if requirements.digits() != 0 {
        let generated = generate_string_from_charset(ALL_DIGITS, requirements.digits());
        proof {
            lemma_append_sample(concatenated@, generated@, Category::Digit);
        }
        concatenated.append(generated.as_str());
    }

    if requirements.symbols() != 0 {
        let generated = generate_string_from_charset(AUTHORIZED_SYMBOLS, requirements.symbols());
        proof {
            lemma_append_sample(concatenated@, generated@, Category::Symbol);
        }
        concatenated.append(generated.as_str());
    }
    proof {
        lemma_counts_cover(concatenated@);
    }

    let mut chars = chars_of(concatenated.as_str());
    shuffle_chars(&mut chars, &mut rng);
    proof {
        lemma_reordered(concatenated@, chars@);
        assert forall|i: int| 0 <= i < chars@.len() implies is_password_char(
            #[trigger] chars@[i],
        ) by {
            assert(chars@.contains(chars@[i]));
            let j: int = choose|j: int|
                0 <= j < concatenated@.len() && concatenated@[j] == chars@[i];
        }
    }
    string_from_chars(&chars)
}

} // verus!
