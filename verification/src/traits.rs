//! Trait tokens and the classifiers that draw size, creature type and the
//! aquatic flag out of them.
//!
//! The classifiers run in a fixed order: size, then type, then aquatic. Each
//! sees only the tokens that the ones before it left over, so a token fills
//! at most one slot of the record.

use vstd::prelude::*;
use vstd::string::*;
use crate::document::{fragment_document, parse_fragment, select_inner_html, selected_markup};
use crate::text::{texts, trim, trimmed};

verus! {

/// What the trait spans and the dedicated elements of a page give.
pub struct Traits {
    pub alignment: String,
    pub monster_type: String,
    pub size: String,
    pub aquatic: bool,
    pub traits: Vec<String>,
}

/// `Traits` as mathematical values.
pub ghost struct TraitsModel {
    pub alignment: Seq<char>,
    pub monster_type: Seq<char>,
    pub size: Seq<char>,
    pub aquatic: bool,
    pub traits: Seq<Seq<char>>,
}

impl View for Traits {
    type V = TraitsModel;

    open spec fn view(&self) -> TraitsModel {
        TraitsModel {
            alignment: self.alignment@,
            monster_type: self.monster_type@,
            size: self.size@,
            aquatic: self.aquatic,
            traits: texts(self.traits@),
        }
    }
}

/// The size vocabulary. Matching is exact and case-sensitive.
pub open spec fn is_size_word(t: Seq<char>) -> bool {
    ||| t == "Tiny"@
    ||| t == "Small"@
    ||| t == "Medium"@
    ||| t == "Large"@
    ||| t == "Huge"@
    ||| t == "Gargantuan"@
}

/// The type words that stand for themselves. Three of them end in a space.
pub open spec fn is_plain_type_word(t: Seq<char>) -> bool {
    ||| t == "Aberration"@
    ||| t == "Animal"@
    ||| t == "Artificial intelligence "@
    ||| t == "Construct"@
    ||| t == "Dragon"@
    ||| t == "Fey"@
    ||| t == "Humanoid"@
    ||| t == "Magical beast "@
    ||| t == "Monstrous humanoid "@
    ||| t == "Ooze"@
    ||| t == "Outsider"@
    ||| t == "Monitor"@
    ||| t == "Plant"@
    ||| t == "Undead"@
    ||| t == "Vermin"@
}

/// The creature type that a token names, if it names one.
pub open spec fn type_of_word(t: Seq<char>) -> Option<Seq<char>> {
    if t == "Beast"@ {
        Some("Animal"@)
    } else if t == "Celestial"@ || t == "Fiend"@ {
        Some("Outsider"@)
    } else if is_plain_type_word(t) {
        Some(t)
    } else {
        None
    }
}

/// The two words that mark a creature of the water.
pub open spec fn is_aquatic_word(t: Seq<char>) -> bool {
    t == "Amphibious"@ || t == "Aquatic"@
}

/// `is_size_word` as a predicate value.
pub open spec fn size_pred() -> spec_fn(Seq<char>) -> bool {
    |t: Seq<char>| is_size_word(t)
}

/// The tokens that name a creature type, as a predicate value.
pub open spec fn type_pred() -> spec_fn(Seq<char>) -> bool {
    |t: Seq<char>| type_of_word(t) is Some
}

/// The tokens that are no aquatic word, as a predicate value.
pub open spec fn dry_pred() -> spec_fn(Seq<char>) -> bool {
    |t: Seq<char>| !is_aquatic_word(t)
}

/// The position of the first token that meets `p`, or the number of tokens
/// where none does.
pub open spec fn first_match(tokens: Seq<Seq<char>>, p: spec_fn(Seq<char>) -> bool) -> int
    decreases tokens.len(),
{
    if tokens.len() == 0 {
        0
    } else if p(tokens[0]) {
        0
    } else {
        1 + first_match(tokens.drop_first(), p)
    }
}

/// `tokens` without the one at position `k`; all of them where `k` is their number.
pub open spec fn without_at(tokens: Seq<Seq<char>>, k: int) -> Seq<Seq<char>> {
    if 0 <= k < tokens.len() {
        tokens.remove(k)
    } else {
        tokens
    }
}

/// Size from the tokens alone: the first size word, which leaves the list,
/// or the placeholder.
pub open spec fn classified_size(tokens: Seq<Seq<char>>) -> (Seq<char>, Seq<Seq<char>>) {
    let k = first_match(tokens, size_pred());
    (
        if k < tokens.len() {
            tokens[k]
        } else {
            "NO SIZE"@
        },
        without_at(tokens, k),
    )
}

/// Type from the tokens alone: what the first type word stands for, that
/// word leaving the list, or the placeholder.
pub open spec fn classified_type(tokens: Seq<Seq<char>>) -> (Seq<char>, Seq<Seq<char>>) {
    let k = first_match(tokens, type_pred());
    (
        if k < tokens.len() {
            type_of_word(tokens[k]).unwrap()
        } else {
            "NO TYPE"@
        },
        without_at(tokens, k),
    )
}

/// The aquatic flag: whether any token is an aquatic word. All of them leave
/// the list.
pub open spec fn classified_aquatic(tokens: Seq<Seq<char>>) -> (bool, Seq<Seq<char>>) {
    (
        exists|i: int| 0 <= i < tokens.len() && is_aquatic_word(#[trigger] tokens[i]),
        tokens.filter(dry_pred()),
    )
}

/// Size by tiers: the dedicated element where the page has one, and then the
/// tokens are left alone; else the tokens decide.
pub open spec fn resolved_size(primary: Seq<Seq<char>>, tokens: Seq<Seq<char>>) -> (
    Seq<char>,
    Seq<Seq<char>>,
) {
    if primary.len() > 0 {
        (primary[0], tokens)
    } else {
        classified_size(tokens)
    }
}

/// Type by tiers, as for size.
pub open spec fn resolved_type(primary: Seq<Seq<char>>, tokens: Seq<Seq<char>>) -> (
    Seq<char>,
    Seq<Seq<char>>,
) {
    if primary.len() > 0 {
        (primary[0], tokens)
    } else {
        classified_type(tokens)
    }
}

/// Alignment by tiers: the long form, else the short form, else the placeholder.
pub open spec fn resolved_alignment(long: Seq<Seq<char>>, short: Seq<Seq<char>>) -> Seq<char> {
    if long.len() > 0 {
        long[0]
    } else if short.len() > 0 {
        short[0]
    } else {
        "NO ALIGN"@
    }
}

/// The token that the markup of one trait span gives, `anchors` being the
/// inner texts of the anchors in it.
pub open spec fn cleaned(raw: Seq<char>, anchors: Seq<Seq<char>>) -> Seq<char> {
    if anchors.len() > 0 {
        trimmed(anchors[0])
    } else {
        trimmed(raw)
    }
}

/// The token of the trait span with inner markup `raw`.
pub open spec fn token_of(raw: Seq<char>) -> Seq<char> {
    cleaned(raw, selected_markup(fragment_document(raw), "a"@))
}

/// The tokens of the trait spans with inner markup `spans`, in order.
pub open spec fn tokens_of(spans: Seq<Seq<char>>) -> Seq<Seq<char>> {
    Seq::new(spans.len(), |i: int| token_of(spans[i]))
}

/// The whole chain on what a page gives: the texts of its long and short
/// alignment elements, of its type and size elements, and its tokens.
pub open spec fn traits_of(
    long: Seq<Seq<char>>,
    short: Seq<Seq<char>>,
    types: Seq<Seq<char>>,
    sizes: Seq<Seq<char>>,
    tokens: Seq<Seq<char>>,
) -> TraitsModel {
    let by_size = resolved_size(sizes, tokens);
    let by_type = resolved_type(types, by_size.1);
    let by_water = classified_aquatic(by_type.1);
    TraitsModel {
        alignment: resolved_alignment(long, short),
        monster_type: by_type.0,
        size: by_size.0,
        aquatic: by_water.0,
        traits: by_water.1,
    }
}

/// The traits of the page `document`.
pub open spec fn page_traits(document: scraper::Html) -> TraitsModel {
    traits_of(
        selected_markup(document, "span[class=creature-alignment]"@),
        selected_markup(document, "span[class=alignment]"@),
        selected_markup(document, "span[class=type]"@),
        selected_markup(document, "span[class=size]"@),
        tokens_of(selected_markup(document, "span[class=trait]"@)),
    )
}

/// A position that meets `p` with none before it that does is `first_match`.
pub proof fn lemma_first_match_is(tokens: Seq<Seq<char>>, p: spec_fn(Seq<char>) -> bool, i: int)
    requires
        0 <= i <= tokens.len(),
        i < tokens.len() ==> p(tokens[i]),
        forall|k: int| 0 <= k < i ==> !p(#[trigger] tokens[k]),
    ensures
        first_match(tokens, p) == i,
    decreases tokens.len(),
{
    if tokens.len() > 0 {
        if p(tokens[0]) {
            if i > 0 {
                assert(!p(tokens[0]));
            }
        } else {
            let rest = tokens.drop_first();
            assert forall|k: int| 0 <= k < i - 1 implies !p(#[trigger] rest[k]) by {
                assert(rest[k] == tokens[k + 1]);
            }
            if i < tokens.len() {
                assert(rest[i - 1] == tokens[i]);
            }
            lemma_first_match_is(rest, p, i - 1);
        }
    }
}

/// `first_match` is a position of the list or its length, and a position
/// that it gives meets `p`.
pub proof fn lemma_first_match_bounds(tokens: Seq<Seq<char>>, p: spec_fn(Seq<char>) -> bool)
    ensures
        0 <= first_match(tokens, p) <= tokens.len(),
        first_match(tokens, p) < tokens.len() ==> p(tokens[first_match(tokens, p)]),
    decreases tokens.len(),
{
    if tokens.len() > 0 && !p(tokens[0]) {
        lemma_first_match_bounds(tokens.drop_first(), p);
    }
}

/// Filtering adds nothing: what the filtered list holds, the list held.
pub proof fn lemma_filter_keeps(tokens: Seq<Seq<char>>, p: spec_fn(Seq<char>) -> bool)
    ensures
        forall|x: Seq<char>| #[trigger] tokens.filter(p).contains(x) ==> tokens.contains(x),
    decreases tokens.len(),
{
    reveal(Seq::filter);
    if tokens.len() > 0 {
        let front = tokens.drop_last();
        lemma_filter_keeps(front, p);
        assert forall|x: Seq<char>| tokens.filter(p).contains(x) implies tokens.contains(x) by {
            let kept = tokens.filter(p);
            let i = choose|i: int| 0 <= i < kept.len() && kept[i] == x;
            if i < front.filter(p).len() {
                assert(front.filter(p)[i] == x);
                assert(front.filter(p).contains(x));
                assert(front.contains(x));
                let j = choose|j: int| 0 <= j < front.len() && front[j] == x;
                assert(tokens[j] == x);
            } else {
                assert(tokens[tokens.len() - 1] == x);
            }
        }
    }
}

/// Taking one token out adds nothing.
pub proof fn lemma_without_keeps(tokens: Seq<Seq<char>>, k: int)
    ensures
        forall|x: Seq<char>| #[trigger] without_at(tokens, k).contains(x) ==> tokens.contains(x),
{
    assert forall|x: Seq<char>| without_at(tokens, k).contains(x) implies tokens.contains(x) by {
        let rest = without_at(tokens, k);
        let i = choose|i: int| 0 <= i < rest.len() && rest[i] == x;
        if 0 <= k < tokens.len() {
            if i < k {
                assert(tokens[i] == x);
            } else {
                assert(tokens[i + 1] == x);
            }
        }
    }
}

/// A token fills one slot only. Where the tokens decide the size, and the
/// word taken stands in the list once, the type classifier does not see it,
/// the aquatic classifier does not see it, and the traits that are left do
/// not hold it.
pub proof fn lemma_consumed_size_is_gone(
    long: Seq<Seq<char>>,
    short: Seq<Seq<char>>,
    types: Seq<Seq<char>>,
    tokens: Seq<Seq<char>>,
)
    requires
        first_match(tokens, size_pred()) < tokens.len(),
        forall|j: int|
            0 <= j < tokens.len() && j != first_match(tokens, size_pred()) ==> #[trigger] tokens[j]
                != classified_size(tokens).0,
    ensures
        ({
            let size = classified_size(tokens).0;
            let seen_by_type = classified_size(tokens).1;
            let seen_by_aquatic = resolved_type(types, seen_by_type).1;
            let record = traits_of(long, short, types, Seq::empty(), tokens);
            &&& is_size_word(size)
            &&& record.size == size
            &&& seen_by_type.len() == tokens.len() - 1
            &&& !seen_by_type.contains(size)
            &&& !seen_by_aquatic.contains(size)
            &&& !record.traits.contains(size)
        }),
{
    let k = first_match(tokens, size_pred());
    lemma_first_match_bounds(tokens, size_pred());
    let size = tokens[k];
    let seen_by_type = tokens.remove(k);
    assert forall|i: int| 0 <= i < seen_by_type.len() implies seen_by_type[i] != size by {
        if i < k {
            assert(seen_by_type[i] == tokens[i]);
        } else {
            assert(seen_by_type[i] == tokens[i + 1]);
        }
    }
    let seen_by_aquatic = resolved_type(types, seen_by_type).1;
    lemma_without_keeps(seen_by_type, first_match(seen_by_type, type_pred()));
    lemma_filter_keeps(seen_by_aquatic, dry_pred());
}

/// No aquatic word is left among the traits.
pub proof fn lemma_no_aquatic_word_left(tokens: Seq<Seq<char>>)
    ensures
        forall|i: int|
            0 <= i < classified_aquatic(tokens).1.len() ==> !is_aquatic_word(
                #[trigger] classified_aquatic(tokens).1[i],
            ),
{
    assert forall|i: int| 0 <= i < classified_aquatic(tokens).1.len() implies !is_aquatic_word(
        #[trigger] classified_aquatic(tokens).1[i],
    ) by {
        tokens.lemma_filter_pred(dry_pred(), i);
    }
}

/// Whether the token is exactly `word`.
fn is_word(t: &String, word: &str) -> (r: bool)
    ensures
        r == (t@ == word@),
{
    *t == String::from_str(word)
}

/// Whether the token is a size word.
pub fn size_word(t: &String) -> (r: bool)
    ensures
        r == is_size_word(t@),
{
    is_word(t, "Tiny") || is_word(t, "Small") || is_word(t, "Medium") || is_word(t, "Large")
        || is_word(t, "Huge") || is_word(t, "Gargantuan")
}

/// Whether the token is a type word that stands for itself.
fn plain_type_word(t: &String) -> (r: bool)
    ensures
        r == is_plain_type_word(t@),
{
    is_word(t, "Aberration")
        || is_word(t, "Animal")
        || is_word(t, "Artificial intelligence ")
        || is_word(t, "Construct")
        || is_word(t, "Dragon")
        || is_word(t, "Fey")
        || is_word(t, "Humanoid")
        || is_word(t, "Magical beast ")
        || is_word(t, "Monstrous humanoid ")
        || is_word(t, "Ooze")
        || is_word(t, "Outsider")
        || is_word(t, "Monitor")
        || is_word(t, "Plant")
        || is_word(t, "Undead")
        || is_word(t, "Vermin")
}

/// The creature type that the token names, synonyms resolved.
pub fn type_word(t: &String) -> (r: Option<String>)
    ensures
        match r {
            Some(name) => type_of_word(t@) == Some(name@),
            None => type_of_word(t@) is None,
        },
{
    if is_word(t, "Beast") {
        Some(String::from_str("Animal"))
    } else if is_word(t, "Celestial") || is_word(t, "Fiend") {
        Some(String::from_str("Outsider"))
    } else if plain_type_word(t) {
        Some(t.clone())
    } else {
        None
    }
}

/// Whether the token is an aquatic word.
pub fn aquatic_word(t: &String) -> (r: bool)
    ensures
        r == is_aquatic_word(t@),
{
    is_word(t, "Amphibious") || is_word(t, "Aquatic")
}

/// A copy of `tokens` without the one at position `k`; of all of them where
/// `k` is their number.
fn without(tokens: &Vec<String>, k: usize) -> (out: Vec<String>)
    requires
        k <= tokens@.len(),
    ensures
        texts(out@) == without_at(texts(tokens@), k as int),
{
    let n: usize = tokens.len();
    let mut out: Vec<String> = Vec::new();
    let mut i: usize = 0;
    while i < k
        invariant
            i <= k <= n,
            n == tokens@.len(),
            texts(out@) =~= texts(tokens@).subrange(0, i as int),
        decreases k - i,
    {
        let ghost before = texts(out@);
        out.push(tokens[i].clone());
        assert(texts(out@) =~= before.push(tokens@[i as int]@));
        i += 1;
    }
    if k == n {
        assert(texts(tokens@).subrange(0, n as int) =~= texts(tokens@));
        return out;
    }
    i = k + 1;
    while i < n
        invariant
            k < i <= n,
            n == tokens@.len(),
            texts(out@) =~= texts(tokens@).subrange(0, k as int) + texts(tokens@).subrange(
                k as int + 1,
                i as int,
            ),
        decreases n - i,
    {
        let ghost before = texts(out@);
        out.push(tokens[i].clone());
        assert(texts(out@) =~= before.push(tokens@[i as int]@));
        i += 1;
    }
    assert(texts(out@) =~= texts(tokens@).remove(k as int));
    out
}

/// Takes the size out of the tokens: the first size word, or `NO SIZE` where
/// there is none. The second part is the list without that word.
pub fn classify_size(tokens: &Vec<String>) -> (r: (String, Vec<String>))
    ensures
        r.0@ == classified_size(texts(tokens@)).0,
        texts(r.1@) == classified_size(texts(tokens@)).1,
{
    let n: usize = tokens.len();
    let mut k: usize = 0;
    while k < n && !size_word(&tokens[k])
        invariant
            k <= n,
            n == tokens@.len(),
            forall|j: int| 0 <= j < k ==> !size_pred()(#[trigger] texts(tokens@)[j]),
        decreases n - k,
    {
        k += 1;
    }
    proof {
        lemma_first_match_is(texts(tokens@), size_pred(), k as int);
    }
    let size = if k < n {
        tokens[k].clone()
    } else {
        String::from_str("NO SIZE")
    };
    (size, without(tokens, k))
}

/// Takes the creature type out of the tokens: what the first type word
/// stands for, or `NO TYPE` where there is none. The second part is the list
/// without that word.
pub fn classify_type(tokens: &Vec<String>) -> (r: (String, Vec<String>))
    ensures
        r.0@ == classified_type(texts(tokens@)).0,
        texts(r.1@) == classified_type(texts(tokens@)).1,
{
    let n: usize = tokens.len();
    let mut k: usize = 0;
    while k < n && type_word(&tokens[k]).is_none()
        invariant
            k <= n,
            n == tokens@.len(),
            forall|j: int| 0 <= j < k ==> !type_pred()(#[trigger] texts(tokens@)[j]),
        decreases n - k,
    {
        k += 1;
    }
    proof {
        lemma_first_match_is(texts(tokens@), type_pred(), k as int);
    }
    let found = if k < n {
        type_word(&tokens[k])
    } else {
        None
    };
    let name = match found {
        Some(name) => name,
        None => String::from_str("NO TYPE"),
    };
    (name, without(tokens, k))
}

/// Sets the aquatic flag where a token is `Amphibious` or `Aquatic`, and
/// drops every such token.
pub fn classify_aquatic(tokens: &Vec<String>) -> (r: (bool, Vec<String>))
    ensures
        r.0 == classified_aquatic(texts(tokens@)).0,
        texts(r.1@) == classified_aquatic(texts(tokens@)).1,
{
    let n: usize = tokens.len();
    let mut aquatic = false;
    let mut rest: Vec<String> = Vec::new();
    let mut i: usize = 0;
    proof {
        reveal(Seq::filter);
        assert(texts(tokens@).subrange(0, 0) =~= Seq::<Seq<char>>::empty());
    }
    while i < n
        invariant
            i <= n,
            n == tokens@.len(),
            aquatic == (exists|j: int| 0 <= j < i && is_aquatic_word(#[trigger] texts(tokens@)[j])),
            texts(rest@) == texts(tokens@).subrange(0, i as int).filter(dry_pred()),
        decreases n - i,
    {
        proof {
            reveal(Seq::filter);
            let next = texts(tokens@).subrange(0, i as int + 1);
            assert(next.drop_last() =~= texts(tokens@).subrange(0, i as int));
            assert(next.last() == tokens@[i as int]@);
        }
        if aquatic_word(&tokens[i]) {
            aquatic = true;
            assert(is_aquatic_word(texts(tokens@)[i as int]));
        } else {
            let ghost before = texts(rest@);
            rest.push(tokens[i].clone());
            assert(texts(rest@) =~= before.push(tokens@[i as int]@));
        }
        i += 1;
    }
    assert(texts(tokens@).subrange(0, n as int) =~= texts(tokens@));
    (aquatic, rest)
}

/// The token of one trait span: the text of its first anchor where it has
/// one, else its own markup, trimmed.
pub fn clean_token(raw: &str, anchors: &Vec<String>) -> (out: String)
    ensures
        out@ == cleaned(raw@, texts(anchors@)),
{
    if anchors.len() > 0 {
        trim(anchors[0].as_str())
    } else {
        trim(raw)
    }
}

/// The tokens of the trait spans whose inner markup is `spans`, in order.
pub fn tokenize(spans: &Vec<String>) -> (out: Vec<String>)
    ensures
        texts(out@) == tokens_of(texts(spans@)),
{
    let n: usize = spans.len();
    let mut out: Vec<String> = Vec::new();
    let mut i: usize = 0;
    while i < n
        invariant
            i <= n,
            n == spans@.len(),
            texts(out@) =~= tokens_of(texts(spans@)).subrange(0, i as int),
        decreases n - i,
    {
        let fragment = parse_fragment(spans[i].as_str());
        let anchors = select_inner_html(&fragment, "a");
        let ghost before = texts(out@);
        let token = clean_token(spans[i].as_str(), &anchors);
        assert(token@ == tokens_of(texts(spans@))[i as int]);
        out.push(token);
        assert(texts(out@) =~= before.push(token@));
        i += 1;
    }
    assert(tokens_of(texts(spans@)).subrange(0, n as int) =~= tokens_of(texts(spans@)));
    out
}

impl Traits {
    /// Runs the chain on what the page holds: `long` and `short` are the
    /// texts of its alignment elements, `types` and `sizes` those of its type
    /// and size elements, `tokens` its trait tokens.
    pub fn assemble(
        long: &Vec<String>,
        short: &Vec<String>,
        types: &Vec<String>,
        sizes: &Vec<String>,
        tokens: Vec<String>,
    ) -> (r: Traits)
        ensures
            r@ == traits_of(
                texts(long@),
                texts(short@),
                texts(types@),
                texts(sizes@),
                texts(tokens@),
            ),
    {
        let alignment = if long.len() > 0 {
            long[0].clone()
        } else if short.len() > 0 {
            short[0].clone()
        } else {
            String::from_str("NO ALIGN")
        };
        let (size, after_size) = if sizes.len() > 0 {
            (sizes[0].clone(), tokens)
        } else {
            classify_size(&tokens)
        };
        let (monster_type, after_type) = if types.len() > 0 {
            (types[0].clone(), after_size)
        } else {
            classify_type(&after_size)
        };
        let (aquatic, traits) = classify_aquatic(&after_type);
        Traits { alignment, monster_type, size, aquatic, traits }
    }

    /// Reads alignment, type, size and the trait spans off the page and runs
    /// the chain on them.
    pub fn new(document: &scraper::Html) -> (r: Traits)
        ensures
            r@ == page_traits(*document),
    {
        let short = select_inner_html(document, "span[class=alignment]");
        let long = select_inner_html(document, "span[class=creature-alignment]");
        let types = select_inner_html(document, "span[class=type]");
        let spans = select_inner_html(document, "span[class=trait]");
        let sizes = select_inner_html(document, "span[class=size]");
        let tokens = tokenize(&spans);
        Traits::assemble(&long, &short, &types, &sizes, tokens)
    }
}

} // verus!
