//! The four categories of password characters, the fixed character set of
//! each, and how the characters of a text are counted by category.

use vstd::multiset::Multiset;
use vstd::prelude::*;
use vstd::seq_lib::{lemma_multiset_commutative, to_multiset_contains, to_multiset_len};
use vstd::string::StrSliceExecFns;

verus! {

/// The lowercase letters, in alphabetical order.
pub const ALL_LOWERCASE: &'static str = "abcdefghijklmnopqrstuvwxyz";

/// The capital letters, in alphabetical order.
pub const ALL_UPPERCASE: &'static str = "ABCDEFGHIJKLMNOPQRSTUVWXYZ";

/// The decimal digits, in ascending order.
pub const ALL_DIGITS: &'static str = "0123456789";

/// The symbols that a password may hold.
pub const AUTHORIZED_SYMBOLS: &'static str = "!@#$%^&*";

/// A class of password characters.
pub enum Category {
    Lowercase,
    Capital,
    Digit,
    Symbol,
}

/// Whether `c` belongs to `category`.
pub open spec fn in_category(c: char, category: Category) -> bool {
    match category {
        Category::Lowercase => 'a' <= c <= 'z',
        Category::Capital => 'A' <= c <= 'Z',
        Category::Digit => '0' <= c <= '9',
        Category::Symbol => c == '!' || c == '@' || c == '#' || c == '$' || c == '%' || c == '^'
            || c == '&' || c == '*',
    }
}

/// The predicate that holds of the characters of `category`.
pub open spec fn members(category: Category) -> spec_fn(char) -> bool {
    |c: char| in_category(c, category)
}

/// The characters that are drawn for `category`.
pub open spec fn charset(category: Category) -> Seq<char> {
    match category {
        Category::Lowercase => ALL_LOWERCASE@,
        Category::Capital => ALL_UPPERCASE@,
        Category::Digit => ALL_DIGITS@,
        Category::Symbol => AUTHORIZED_SYMBOLS@,
    }
}

/// The number of characters that are drawn for `category`.
pub open spec fn charset_size(category: Category) -> nat {
    match category {
        Category::Lowercase => 26,
        Category::Capital => 26,
        Category::Digit => 10,
        Category::Symbol => 8,
    }
}

/// How many characters of `text`, counted with repetition, belong to
/// `category`. The count looks at the multiset of the characters only, so it
/// does not change when `text` is reordered.
pub open spec fn category_count(text: Seq<char>, category: Category) -> nat {
    text.to_multiset().filter(members(category)).len()
}

/// Whether `c` belongs to one of the four categories.
pub open spec fn is_password_char(c: char) -> bool {
    exists|category: Category| in_category(c, category)
}

/// Whether every character of `text` belongs to one of the four categories.
pub open spec fn all_password_chars(text: Seq<char>) -> bool {
    forall|i: int| 0 <= i < text.len() ==> is_password_char(#[trigger] text[i])
}

/// Whether every character of `text` belongs to `category`.
pub open spec fn all_in_category(text: Seq<char>, category: Category) -> bool {
    forall|i: int| 0 <= i < text.len() ==> in_category(#[trigger] text[i], category)
}

/// No character belongs to two categories.
pub proof fn lemma_categories_disjoint(c: char, first: Category, second: Category)
    requires
        in_category(c, first),
        in_category(c, second),
    ensures
        first == second,
{
}

/// The character set of a category holds exactly the characters of that
/// category, each of them once.
pub proof fn lemma_charset_is_category(category: Category)
    ensures
        forall|c: char|
            #![trigger charset(category).contains(c)]
            #![trigger in_category(c, category)]
            charset(category).contains(c) <==> in_category(c, category),
        charset(category).no_duplicates(),
        charset(category).len() == charset_size(category),
{
    reveal_strlit("abcdefghijklmnopqrstuvwxyz");
    reveal_strlit("ABCDEFGHIJKLMNOPQRSTUVWXYZ");
    reveal_strlit("0123456789");
    reveal_strlit("!@#$%^&*");
    let set = charset(category);
    assert forall|c: char| in_category(c, category) implies set.contains(c) by {
        match category {
            Category::Lowercase => {
                let i: int = c as int - 'a' as int;
                assert(set[i] == c);
            },
            Category::Capital => {
                let i: int = c as int - 'A' as int;
                assert(set[i] == c);
            },
            Category::Digit => {
                let i: int = c as int - '0' as int;
                assert(set[i] == c);
            },
            Category::Symbol => {
                let i: int = if c == '!' {
                    0
                } else if c == '@' {
                    1
                } else if c == '#' {
                    2
                } else if c == '$' {
                    3
                } else if c == '%' {
                    4
                } else if c == '^' {
                    5
                } else if c == '&' {
                    6
                } else {
                    7
                };
                assert(set[i] == c);
            },
        }
    }
}

/// The text without characters has none of any category.
pub proof fn lemma_count_empty(category: Category)
    ensures
        category_count(Seq::<char>::empty(), category) == 0,
{
    broadcast use vstd::multiset::group_multiset_axioms;

    let none = Seq::<char>::empty();
    none.to_multiset_ensures();
    vstd::multiset::lemma_multiset_empty_len(none.to_multiset());
    assert(none.to_multiset().filter(members(category)) =~= Multiset::<char>::empty());
}

/// One more character raises the count of its own category by one and leaves
/// the other counts as they are.
pub proof fn lemma_count_push(text: Seq<char>, c: char, category: Category)
    ensures
        category_count(text.push(c), category) == category_count(text, category) + (if in_category(
            c,
            category,
        ) {
            1nat
        } else {
            0nat
        }),
{
    broadcast use vstd::multiset::group_multiset_axioms;

    let keep = members(category);
    let before = text.to_multiset();
    text.to_multiset_ensures();
    assert(text.push(c).to_multiset() =~= before.insert(c));
    if in_category(c, category) {
        assert(before.insert(c).filter(keep) =~= before.filter(keep).insert(c));
    } else {
        assert(before.insert(c).filter(keep) =~= before.filter(keep));
    }
}

/// Counting by category is additive over concatenation.
pub proof fn lemma_count_concat(left: Seq<char>, right: Seq<char>, category: Category)
    ensures
        category_count(left + right, category) == category_count(left, category) + category_count(
            right,
            category,
        ),
{
    broadcast use vstd::multiset::group_multiset_axioms;

    let keep = members(category);
    lemma_multiset_commutative(left, right);
    assert(left.to_multiset().add(right.to_multiset()).filter(keep) =~= left.to_multiset().filter(
        keep,
    ).add(right.to_multiset().filter(keep)));
}

/// A text drawn from one category counts in full for that category and not
/// at all for any other.
pub proof fn lemma_count_uniform(text: Seq<char>, own: Category, category: Category)
    requires
        all_in_category(text, own),
    ensures
        category_count(text, category) == (if category == own {
            text.len()
        } else {
            0
        }),
    decreases text.len(),
{
    if text.len() == 0 {
        assert(text =~= Seq::<char>::empty());
        lemma_count_empty(category);
    } else {
        let front = text.drop_last();
        let c = text.last();
        assert(text =~= front.push(c));
        assert forall|i: int| 0 <= i < front.len() implies in_category(
            #[trigger] front[i],
            own,
        ) by {
            assert(front[i] == text[i]);
        }
        lemma_count_uniform(front, own, category);
        lemma_count_push(front, c, category);
        if category != own && in_category(c, category) {
            lemma_categories_disjoint(c, own, category);
        }
    }
}

/// In a text of password characters every character is counted in exactly
/// one category, so the four counts add up to the length of the text.
pub proof fn lemma_counts_cover(text: Seq<char>)
    requires
        all_password_chars(text),
    ensures
        category_count(text, Category::Lowercase) + category_count(text, Category::Capital)
            + category_count(text, Category::Digit) + category_count(text, Category::Symbol)
            == text.len(),
    decreases text.len(),
{
    lemma_count_empty(Category::Lowercase);
    lemma_count_empty(Category::Capital);
    lemma_count_empty(Category::Digit);
    lemma_count_empty(Category::Symbol);
    if text.len() == 0 {
        assert(text =~= Seq::<char>::empty());
    } else {
        let front = text.drop_last();
        let c = text.last();
        assert(text =~= front.push(c));
        assert forall|i: int| 0 <= i < front.len() implies is_password_char(
            #[trigger] front[i],
        ) by {
            assert(front[i] == text[i]);
        }
        lemma_counts_cover(front);
        lemma_count_push(front, c, Category::Lowercase);
        lemma_count_push(front, c, Category::Capital);
        lemma_count_push(front, c, Category::Digit);
        lemma_count_push(front, c, Category::Symbol);
    }
}

/// Reordering a text changes neither its length, nor which characters occur
/// in it, nor any of its counts.
pub proof fn lemma_reordered(first: Seq<char>, second: Seq<char>)
    requires
        first.to_multiset() == second.to_multiset(),
    ensures
        first.len() == second.len(),
        forall|c: char| first.contains(c) <==> second.contains(c),
        forall|category: Category|
            category_count(first, category) == category_count(second, category),
{
    to_multiset_len(first);
    to_multiset_len(second);
    assert forall|c: char| first.contains(c) <==> second.contains(c) by {
        to_multiset_contains(first, c);
        to_multiset_contains(second, c);
    }
}

/// The character of `charset` at position `index`.
pub fn charset_char(charset: &str, index: usize) -> (c: char)
    requires
        index < charset@.len(),
    ensures
        c == charset@[index as int],
{
    charset.get_char(index)
}

} // verus!
