//! Selection expressions: 1-based column ordinals, separated by commas.

use vstd::prelude::*;
use vstd::string::StrSliceExecFns;
use crate::schema::{SchemaError, SchemaErrorView, SelectColumns};
use crate::miner::{ordinal_texts, selector_of};
use crate::order::{lemma_decimal_digits_write_the_number, lemma_decimal_round_trip};
use crate::text::{decimal_digits, is_digit, joined, parse_count, unsigned_literal};

verus! {

/// Where the item begins that is open after the first `n` characters: behind the last comma.
pub open spec fn item_start(text: Seq<char>, n: int) -> int
    decreases n,
{
    if n <= 0 {
        0
    } else if text[n - 1] == ',' {
        n
    } else {
        item_start(text, n - 1)
    }
}

/// The items that a comma has closed among the first `n` characters.
pub open spec fn closed_items(text: Seq<char>, n: int) -> Seq<Seq<char>>
    decreases n,
{
    if n <= 0 {
        Seq::empty()
    } else if text[n - 1] == ',' {
        closed_items(text, n - 1).push(text.subrange(item_start(text, n - 1), n - 1))
    } else {
        closed_items(text, n - 1)
    }
}

/// The items of an expression: the texts between its commas.
pub open spec fn items_of(text: Seq<char>) -> Seq<Seq<char>> {
    closed_items(text, text.len() as int).push(text.subrange(item_start(text, text.len() as int), text.len() as int))
}

/// The ordinals of the first `n` items, or the position of the first item that is no ordinal.
pub open spec fn ordinals_of(items: Seq<Seq<char>>, n: int) -> Result<Seq<usize>, SchemaErrorView>
    decreases n,
{
    if n <= 0 {
        Ok(Seq::empty())
    } else {
        match ordinals_of(items, n - 1) {
            Err(e) => Err(e),
            Ok(ordinals) => match unsigned_literal(items[n - 1], usize::MAX as nat) {
                Some(v) => Ok(ordinals.push(v as usize)),
                None => Err(SchemaErrorView::UnreadableSelection { position: (n - 1) as usize }),
            },
        }
    }
}

/// What an expression selects: every column where it is empty, else the ordinals of its items.
pub open spec fn parsed(text: Seq<char>) -> Result<Seq<usize>, SchemaErrorView> {
    if text.len() == 0 {
        Ok(Seq::empty())
    } else {
        ordinals_of(items_of(text), items_of(text).len() as int)
    }
}

/// An item that is no ordinal among the first `k` fails the whole expression.
pub proof fn lemma_unreadable_item_persists(items: Seq<Seq<char>>, k: int, n: int)
    requires
        0 <= k <= n,
        ordinals_of(items, k) is Err,
    ensures
        ordinals_of(items, n) == ordinals_of(items, k),
    decreases n - k,
{
    if k < n {
        lemma_unreadable_item_persists(items, k, n - 1);
    }
}

/// The ordinals of a list of items depend on the items before `n` only.
pub proof fn lemma_ordinals_of_prefix(a: Seq<Seq<char>>, b: Seq<Seq<char>>, n: int)
    requires
        0 <= n <= a.len(),
        n <= b.len(),
        forall|i: int| 0 <= i < n ==> a[i] == b[i],
    ensures
        ordinals_of(a, n) == ordinals_of(b, n),
    decreases n,
{
    if n > 0 {
        lemma_ordinals_of_prefix(a, b, n - 1);
    }
}

impl SelectColumns {
    /// Reads a selection expression.
    pub fn parse(text: &str) -> (r: Result<SelectColumns, SchemaError>)
        ensures
            match r {
                Ok(selection) => parsed(text@) == Ok::<Seq<usize>, SchemaErrorView>(selection.ordinals@),
                Err(e) => parsed(text@) == Err::<Seq<usize>, SchemaErrorView>(e@),
            },
    {
        let len = text.unicode_len();
        let mut ordinals: Vec<usize> = Vec::new();
        if len == 0 {
            return Ok(SelectColumns { ordinals });
        }
        let ghost whole = items_of(text@);
        let mut start: usize = 0;
        let mut i: usize = 0;
        proof {
            lemma_closed_items_in_whole(text@, 0);
        }
        while i < len
            invariant
                i <= len,
                len == text@.len(),
                whole == items_of(text@),
                start == item_start(text@, i as int),
                start <= i,
                ordinals@.len() == closed_items(text@, i as int).len(),
                ordinals_of(closed_items(text@, i as int), closed_items(text@, i as int).len() as int) == Ok::<
                    Seq<usize>,
                    SchemaErrorView,
                >(ordinals@),
                forall|k: int| 0 <= k < closed_items(text@, i as int).len() ==> closed_items(text@, i as int)[k] == whole[k],
                closed_items(text@, i as int).len() < whole.len(),
            decreases len - i,
        {
            proof {
                lemma_closed_items_in_whole(text@, i as int + 1);
            }
            if text.get_char(i) == ',' {
                let ghost before = closed_items(text@, i as int);
                let ghost after = closed_items(text@, i + 1);
                assert(after == before.push(text@.subrange(start as int, i as int)));
                proof {
                    lemma_ordinals_of_prefix(after, before, before.len() as int);
                }
                match parse_count(text.substring_char(start, i)) {
                    Some(ordinal) => {
                        ordinals.push(ordinal);
                    },
                    None => {
                        let position = ordinals.len();
                        proof {
                            assert(after[position as int] == whole[position as int]);
                            lemma_ordinals_of_prefix(after, whole, position + 1);
                            lemma_unreadable_item_persists(whole, position + 1, whole.len() as int);
                        }
                        return Err(SchemaError::UnreadableSelection { position });
                    },
                }
                start = i + 1;
            }
            i += 1;
        }
        let ghost closed = closed_items(text@, len as int);
        proof {
            lemma_ordinals_of_prefix(whole, closed, closed.len() as int);
        }
        match parse_count(text.substring_char(start, len)) {
            Some(ordinal) => {
                ordinals.push(ordinal);
                Ok(SelectColumns { ordinals })
            },
            None => {
                let position = ordinals.len();
                Err(SchemaError::UnreadableSelection { position })
            },
        }
    }
}

/// The items closed within a prefix are the first items closed within any longer one.
pub proof fn lemma_closed_items_monotone(text: Seq<char>, n: int, m: int)
    requires
        0 <= n <= m <= text.len(),
    ensures
        closed_items(text, n).len() <= closed_items(text, m).len(),
        forall|k: int| 0 <= k < closed_items(text, n).len() ==> closed_items(text, n)[k] == closed_items(text, m)[k],
    decreases m - n,
{
    if n < m {
        lemma_closed_items_monotone(text, n, m - 1);
    }
}

/// The items closed within a prefix are the first items of the expression,
/// which has one more item at least.
pub proof fn lemma_closed_items_in_whole(text: Seq<char>, m: int)
    requires
        0 <= m <= text.len(),
    ensures
        closed_items(text, m).len() < items_of(text).len(),
        forall|k: int| 0 <= k < closed_items(text, m).len() ==> closed_items(text, m)[k] == items_of(text)[k],
{
    lemma_closed_items_monotone(text, m, text.len() as int);
}

/// The items closed within the first `n` characters, and where the open
/// item begins, depend on those characters only.
pub proof fn lemma_items_of_common_prefix(a: Seq<char>, b: Seq<char>, n: int)
    requires
        0 <= n <= a.len(),
        n <= b.len(),
        forall|i: int| 0 <= i < n ==> a[i] == b[i],
    ensures
        closed_items(a, n) == closed_items(b, n),
        item_start(a, n) == item_start(b, n),
        0 <= item_start(a, n) <= n,
    decreases n,
{
    if n > 0 {
        lemma_items_of_common_prefix(a, b, n - 1);
        if a[n - 1] == ',' {
            assert(a.subrange(item_start(a, n - 1), n - 1) =~= b.subrange(item_start(b, n - 1), n - 1));
        }
    }
}

/// Characters other than the comma close no item and leave the open item where it began.
pub proof fn lemma_items_without_comma(text: Seq<char>, m: int, n: int)
    requires
        0 <= m <= n <= text.len(),
        forall|i: int| m <= i < n ==> text[i] != ',',
    ensures
        closed_items(text, n) == closed_items(text, m),
        item_start(text, n) == item_start(text, m),
    decreases n - m,
{
    if m < n {
        lemma_items_without_comma(text, m, n - 1);
    }
}

/// Texts without a comma, joined by commas, are the items of the joined text.
pub proof fn lemma_items_of_joined(items: Seq<Seq<char>>)
    requires
        items.len() > 0,
        forall|k: int, i: int| 0 <= k < items.len() && 0 <= i < items[k].len() ==> #[trigger] items[k][i] != ',',
    ensures
        items_of(joined(items, ","@)) == items,
    decreases items.len(),
{
    reveal_strlit(",");
    let text = joined(items, ","@);
    if items.len() == 1 {
        assert(text == items[0]);
        lemma_items_without_comma(text, 0, text.len() as int);
        assert(text.subrange(0, text.len() as int) =~= text);
        assert(items_of(text) =~= items);
    } else {
        let earlier = items.drop_last();
        let head = joined(earlier, ","@);
        let tail = items.last();
        assert forall|k: int, i: int| 0 <= k < earlier.len() && 0 <= i < earlier[k].len() implies #[trigger] earlier[k][i]
            != ',' by {
            assert(earlier[k] == items[k]);
        }
        lemma_items_of_joined(earlier);
        assert(","@ =~= seq![',']);
        assert(text == head + ","@ + tail);
        let cut = head.len() as int;
        assert(text[cut] == ',');
        lemma_items_of_common_prefix(text, head, cut);
        assert(text.subrange(item_start(text, cut), cut) =~= head.subrange(item_start(head, cut), cut));
        assert(closed_items(text, cut + 1) == items_of(head));
        assert(item_start(text, cut + 1) == cut + 1);
        assert forall|i: int| cut + 1 <= i < text.len() implies text[i] != ',' by {
            assert(text[i] == tail[i - cut - 1]);
            assert(items[items.len() - 1][i - cut - 1] != ',');
        }
        lemma_items_without_comma(text, cut + 1, text.len() as int);
        assert(text.subrange(cut + 1, text.len() as int) =~= tail);
        assert(items_of(text) =~= earlier.push(tail));
        assert(earlier.push(tail) =~= items);
    }
}

/// The ordinals of their own decimal texts are the ordinals.
pub proof fn lemma_ordinals_of_decimal_texts(ordinals: Seq<usize>, n: int)
    requires
        0 <= n <= ordinals.len(),
    ensures
        ordinals_of(ordinal_texts(ordinals), n) == Ok::<Seq<usize>, SchemaErrorView>(ordinals.take(n)),
    decreases n,
{
    if n > 0 {
        lemma_ordinals_of_decimal_texts(ordinals, n - 1);
        lemma_decimal_round_trip(ordinals[n - 1] as nat, usize::MAX as nat);
        assert(ordinal_texts(ordinals)[n - 1] == decimal_digits(ordinals[n - 1] as nat));
        assert(ordinals.take(n - 1).push(ordinals[n - 1]) =~= ordinals.take(n));
    } else {
        assert(ordinals.take(0) =~= Seq::<usize>::empty());
    }
}

/// A selection expression that is written from a list of ordinals reads
/// back as that list.
pub proof fn lemma_selector_round_trip(ordinals: Seq<usize>)
    ensures
        parsed(selector_of(ordinals)) == Ok::<Seq<usize>, SchemaErrorView>(ordinals),
{
    let items = ordinal_texts(ordinals);
    if ordinals.len() == 0 {
        assert(selector_of(ordinals) =~= Seq::<char>::empty());
        assert(ordinals =~= Seq::<usize>::empty());
    } else {
        assert forall|k: int, i: int| 0 <= k < items.len() && 0 <= i < items[k].len() implies #[trigger] items[k][i]
            != ',' by {
            lemma_decimal_digits_write_the_number(ordinals[k] as nat);
            assert(is_digit(decimal_digits(ordinals[k] as nat)[i]));
        }
        lemma_items_of_joined(items);
        lemma_decimal_digits_write_the_number(ordinals[ordinals.len() - 1] as nat);
        assert(items.last() == decimal_digits(ordinals[ordinals.len() - 1] as nat));
        lemma_joined_not_empty(items);
        lemma_ordinals_of_decimal_texts(ordinals, ordinals.len() as int);
        assert(ordinals.take(ordinals.len() as int) =~= ordinals);
        let text = selector_of(ordinals);
        assert(text.len() > 0);
        assert(items_of(text) == items);
        assert(items.len() == ordinals.len());
    }
}

/// Texts of which the last is not empty join to a text that is not empty.
pub proof fn lemma_joined_not_empty(items: Seq<Seq<char>>)
    requires
        items.len() > 0,
        items.last().len() > 0 || items.len() > 1,
    ensures
        joined(items, ","@).len() > 0,
{
    reveal_strlit(",");
}

} // verus!
