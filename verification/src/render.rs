//! A table as text, for the eye.
//!
//! The text names the elements in bucket order, then every bucket that has an alias with
//! that alias, then every bucket with its probability as a decimal fraction of two places.
//! The alias pairs follow a brace and a blank, the probability pairs follow their brace
//! directly:
//!
//! ```text
//! { elements: [ a b c ], alias: { a:c, b:c }, prob: {a:0.30, b:0.45, c:1.00 }}
//! ```

use vstd::prelude::*;
use vstd::string::{to_string_from_display_ensures, StringExecFns};
use core::fmt::Display;
use crate::table::{Table, VoseAlias};
use crate::weights::UNIT;

verus! {

/// The decimal digit `d` as text.
pub open spec fn digit(d: int) -> Seq<char> {
    if d == 0 {
        "0"@
    } else if d == 1 {
        "1"@
    } else if d == 2 {
        "2"@
    } else if d == 3 {
        "3"@
    } else if d == 4 {
        "4"@
    } else if d == 5 {
        "5"@
    } else if d == 6 {
        "6"@
    } else if d == 7 {
        "7"@
    } else if d == 8 {
        "8"@
    } else {
        "9"@
    }
}

/// The number `n` in decimal digits, without leading zeros.
pub open spec fn decimal(n: int) -> Seq<char>
    decreases n,
{
    if n < 10 {
        digit(n)
    } else {
        decimal(n / 10) + digit(n % 10)
    }
}

/// The probability `p`, given in parts of [`UNIT`], in hundredths of certainty, rounded to
/// the nearest, and from the middle between two to the even one.
pub open spec fn hundredths(p: int) -> int {
    let below = p * 100 / (UNIT as int);
    let beyond = p * 100 % (UNIT as int);
    if 2 * beyond > UNIT || (2 * beyond == UNIT && below % 2 == 1) {
        below + 1
    } else {
        below
    }
}

/// The probability `p`, given in parts of [`UNIT`], as a decimal fraction of two places.
pub open spec fn fraction(p: int) -> Seq<char> {
    let h = hundredths(p);
    decimal(h / 100) + "."@ + digit(h / 10 % 10) + digit(h % 10)
}

/// The texts of labels.
pub open spec fn texts(labels: Seq<String>) -> Seq<Seq<char>> {
    labels.map_values(|label: String| label@)
}

/// The first `upto` labels after an opening bracket, each followed by a blank.
pub open spec fn listed(labels: Seq<Seq<char>>, upto: int) -> Seq<char>
    decreases upto,
{
    if upto <= 0 {
        "[ "@
    } else {
        listed(labels, upto - 1) + labels[upto - 1] + " "@
    }
}

/// The alias entry of bucket `b`, where the bucket has an alias that has a label.
pub open spec fn alias_entry(alias: Seq<Option<int>>, labels: Seq<Seq<char>>, b: int) -> Option<
    Seq<char>,
> {
    if b < alias.len() {
        match alias[b] {
            Some(a) if 0 <= a < labels.len() => Some(labels[b] + ":"@ + labels[a]),
            _ => None,
        }
    } else {
        None
    }
}

/// The alias entries of the first `upto` buckets.
pub open spec fn alias_entries(alias: Seq<Option<int>>, labels: Seq<Seq<char>>, upto: int) -> Seq<
    Seq<char>,
>
    decreases upto,
{
    if upto <= 0 {
        Seq::empty()
    } else {
        let before = alias_entries(alias, labels, upto - 1);
        match alias_entry(alias, labels, upto - 1) {
            Some(entry) => before.push(entry),
            None => before,
        }
    }
}

/// The probability entries of the first `upto` buckets.
pub open spec fn prob_entries(prob: Seq<int>, labels: Seq<Seq<char>>, upto: int) -> Seq<Seq<char>>
    decreases upto,
{
    if upto <= 0 {
        Seq::empty()
    } else {
        prob_entries(prob, labels, upto - 1).push(
            labels[upto - 1] + ":"@ + fraction(prob[upto - 1]),
        )
    }
}

/// The entries one after another, with a comma and a blank between neighbours.
pub open spec fn joined(entries: Seq<Seq<char>>) -> Seq<char>
    decreases entries.len(),
{
    if entries.len() == 0 {
        Seq::empty()
    } else if entries.len() == 1 {
        entries[0]
    } else {
        joined(entries.drop_last()) + ", "@ + entries.last()
    }
}

/// The alias pairs between braces, with a blank inside each brace.
pub open spec fn alias_section(pairs: Seq<Seq<char>>) -> Seq<char> {
    if pairs.len() == 0 {
        "{ }"@
    } else {
        "{ "@ + joined(pairs) + " }"@
    }
}

/// The probability pairs between braces, with a blank inside the closing brace alone.
pub open spec fn prob_section(pairs: Seq<Seq<char>>) -> Seq<char> {
    "{"@ + joined(pairs) + " }"@
}

/// How many buckets have both a label and a probability.
pub open spec fn shown(prob: Seq<int>, labels: Seq<Seq<char>>) -> int {
    if prob.len() < labels.len() {
        prob.len() as int
    } else {
        labels.len() as int
    }
}

/// The text of a table whose buckets go by `labels`.
pub open spec fn rendering<T>(table: Table<T>, labels: Seq<Seq<char>>) -> Seq<char> {
    "{ elements: "@ + listed(labels, labels.len() as int) + "], alias: "@ + alias_section(
        alias_entries(table.alias, labels, labels.len() as int),
    ) + ", prob: "@ + prob_section(prob_entries(table.prob, labels, shown(table.prob, labels)))
        + "}"@
}

/// Each label is what its element displays as.
pub open spec fn labelled<T: Display>(elements: Seq<T>, labels: Seq<String>) -> bool {
    &&& labels.len() == elements.len()
    &&& forall|i: int|
        0 <= i < elements.len() ==> to_string_from_display_ensures::<T>(
            &#[trigger] elements[i],
            labels[i],
        )
}

/// The decimal digit `d` as text.
fn digit_text(d: u128) -> (text: &'static str)
    requires
        d < 10,
    ensures
        text@ == digit(d as int),
{
    if d == 0 {
        "0"
    } else if d == 1 {
        "1"
    } else if d == 2 {
        "2"
    } else if d == 3 {
        "3"
    } else if d == 4 {
        "4"
    } else if d == 5 {
        "5"
    } else if d == 6 {
        "6"
    } else if d == 7 {
        "7"
    } else if d == 8 {
        "8"
    } else {
        "9"
    }
}

/// The number `n` in decimal digits.
fn decimal_text(n: u128) -> (text: String)
    ensures
        text@ == decimal(n as int),
    decreases n,
{
    if n < 10 {
        String::from_str(digit_text(n))
    } else {
        let mut text = decimal_text(n / 10);
        text.append(digit_text(n % 10));
        text
    }
}

/// The probability `p` as a decimal fraction of two places.
fn fraction_text(p: u64) -> (text: String)
    ensures
        text@ == fraction(p as int),
{
    let below: u128 = p as u128 * 100 / (UNIT as u128);
    let beyond: u128 = p as u128 * 100 % (UNIT as u128);
    let up: bool = 2 * beyond > UNIT as u128 || (2 * beyond == UNIT as u128 && below % 2 == 1);
    let h: u128 = if up {
        below + 1
    } else {
        below
    };
    let mut text = decimal_text(h / 100);
    text.append(".");
    text.append(digit_text(h / 10 % 10));
    text.append(digit_text(h % 10));
    text
}

/// The entries one after another, with a comma and a blank between neighbours.
fn join(entries: &Vec<String>) -> (text: String)
    ensures
        text@ == joined(texts(entries@)),
{
    let mut text = String::new();
    let n: usize = entries.len();
    let mut i: usize = 0;
    while i < n
        invariant
            n == entries.len(),
            0 <= i <= n,
            text@ == joined(texts(entries@).take(i as int)),
        decreases n - i,
    {
        if i > 0 {
            text.append(", ");
        }
        text.append(entries[i].as_str());
        i = i + 1;
        proof {
            let now = texts(entries@).take(i as int);
            assert(now.drop_last() =~= texts(entries@).take(i - 1));
        }
    }
    proof {
        assert(texts(entries@).take(n as int) =~= texts(entries@));
    }
    text
}

/// The alias pairs between braces.
fn alias_section_text(pairs: &Vec<String>) -> (text: String)
    ensures
        text@ == alias_section(texts(pairs@)),
{
    if pairs.len() == 0 {
        String::from_str("{ }")
    } else {
        let mut text = String::from_str("{ ");
        text.append(join(pairs).as_str());
        text.append(" }");
        text
    }
}

/// The probability pairs between braces.
fn prob_section_text(pairs: &Vec<String>) -> (text: String)
    ensures
        text@ == prob_section(texts(pairs@)),
{
    let mut text = String::from_str("{");
    text.append(join(pairs).as_str());
    text.append(" }");
    text
}

impl<T> VoseAlias<T> {
    /// The table as text, with `labels[b]` standing for the element of bucket `b`.
    pub fn render_with(&self, labels: &Vec<String>) -> (text: String)
        ensures
            text@ == rendering(self@, texts(labels@)),
    {
        let ghost names = texts(labels@);
        let n: usize = labels.len();
        let mut text = String::from_str("{ elements: ");
        let mut list = String::from_str("[ ");
        let mut aliases: Vec<String> = Vec::new();
        let mut probs: Vec<String> = Vec::new();
        let mut b: usize = 0;
        while b < n
            invariant
                n == labels.len(),
                names == texts(labels@),
                0 <= b <= n,
                list@ == listed(names, b as int),
                texts(aliases@) == alias_entries(self@.alias, names, b as int),
                texts(probs@) == prob_entries(
                    self@.prob,
                    names,
                    if b <= self.prob.len() {
                        b as int
                    } else {
                        self.prob.len() as int
                    },
                ),
            decreases n - b,
        {
            list.append(labels[b].as_str());
            list.append(" ");
            if b < self.alias.len() {
                match self.alias[b] {
                    Some(a) => {
                        if a < n {
                            let mut entry = labels[b].clone();
                            entry.append(":");
                            entry.append(labels[a].as_str());
                            aliases.push(entry);
                        }
                    },
                    None => {},
                }
            }
            if b < self.prob.len() {
                let mut entry = labels[b].clone();
                entry.append(":");
                let shown = fraction_text(self.prob[b]);
                entry.append(shown.as_str());
                probs.push(entry);
            }
            b = b + 1;
        }
        text.append(list.as_str());
        text.append("], alias: ");
        text.append(alias_section_text(&aliases).as_str());
        text.append(", prob: ");
        text.append(prob_section_text(&probs).as_str());
        text.append("}");
        text
    }
}

impl<T: Display> VoseAlias<T> {
    /// The table as text, with every element as it displays.
    pub fn render(&self) -> (text: String)
        ensures
            exists|labels: Seq<String>| #[trigger]
                labelled(self@.elements, labels) && text@ == rendering(self@, texts(labels)),
    {
        let n: usize = self.elements.len();
        let mut labels: Vec<String> = Vec::new();
        let mut i: usize = 0;
        while i < n
            invariant
                n == self.elements.len(),
                0 <= i <= n,
                labelled(self@.elements.take(i as int), labels@),
            decreases n - i,
        {
            let label = self.elements[i].to_string();
            labels.push(label);
            i = i + 1;
        }
        proof {
            assert(self@.elements.take(n as int) =~= self@.elements);
        }
        self.render_with(&labels)
    }
}

} // verus!
