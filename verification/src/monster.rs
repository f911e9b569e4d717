//! The creature record, how a page gives it, and the limits that the storage
//! schema sets on it.

use vstd::prelude::*;
use vstd::string::*;
use crate::document::{select_inner_html, selected_markup};
use crate::error::{ParseError, ParseErrorModel};
use crate::render::{bool_text, debug_list, debug_list_text, flag_text, integer_text, level_text};
use crate::text::{contains, has_substring, texts, trim, trimmed};
use crate::title::{page_title, Title, TitleModel};
use crate::traits::{page_traits, Traits, TraitsModel};

verus! {

/// One creature. A record may break the limits of the schema: `validate`
/// finds that out, nothing prevents it.
pub struct Monster {
    pub url: String,
    pub name: String,
    pub level: i32,
    pub alignment: String,
    pub monster_type: String,
    pub size: String,
    pub traits: Vec<String>,
    pub is_caster: bool,
    pub is_ranged: bool,
    pub is_aquatic: bool,
}

/// `Monster` as mathematical values.
pub ghost struct MonsterModel {
    pub url: Seq<char>,
    pub name: Seq<char>,
    pub level: int,
    pub alignment: Seq<char>,
    pub monster_type: Seq<char>,
    pub size: Seq<char>,
    pub traits: Seq<Seq<char>>,
    pub is_caster: bool,
    pub is_ranged: bool,
    pub is_aquatic: bool,
}

impl View for Monster {
    type V = MonsterModel;

    open spec fn view(&self) -> MonsterModel {
        MonsterModel {
            url: self.url@,
            name: self.name@,
            level: self.level as int,
            alignment: self.alignment@,
            monster_type: self.monster_type@,
            size: self.size@,
            traits: texts(self.traits@),
            is_caster: self.is_caster,
            is_ranged: self.is_ranged,
            is_aquatic: self.is_aquatic,
        }
    }
}

/// A trait within the limits: not empty, at most 50 characters.
pub open spec fn trait_fits(t: Seq<char>) -> bool {
    0 < t.len() <= 50
}

impl MonsterModel {
    /// The limits of the schema, lengths counted in characters. The level
    /// has no lower limit; alignment and size may be empty.
    pub open spec fn valid(self) -> bool {
        &&& 0 < self.name.len() <= 100
        &&& self.level <= 25
        &&& self.alignment.len() <= 2
        &&& 0 < self.monster_type.len() <= 100
        &&& self.size.len() <= 20
        &&& forall|i: int| 0 <= i < self.traits.len() ==> trait_fits(#[trigger] self.traits[i])
    }
}

/// The record made of a title, traits and the two flags of the page. Every
/// text but the traits is trimmed.
pub open spec fn record_of(
    title: TitleModel,
    traits: TraitsModel,
    is_caster: bool,
    is_ranged: bool,
) -> MonsterModel {
    MonsterModel {
        url: trimmed(title.url),
        name: trimmed(title.name),
        level: title.level,
        alignment: trimmed(traits.alignment),
        monster_type: trimmed(traits.monster_type),
        size: trimmed(traits.size),
        traits: traits.traits,
        is_caster,
        is_ranged,
        is_aquatic: traits.aquatic,
    }
}

/// The display of a record: one line for each field but the address.
pub open spec fn rendered(m: MonsterModel) -> Seq<char> {
    "name: "@ + m.name + "\nlevel: "@ + integer_text(m.level) + "\ntype: "@ + m.monster_type
        + "\nalignment: "@ + m.alignment + "\nsize: "@ + m.size + "\ntraits: "@ + debug_list_text(
        m.traits,
    ) + "\nCaster? "@ + bool_text(m.is_caster) + "\nRanged? "@ + bool_text(m.is_ranged)
        + "\nAquatic? "@ + bool_text(m.is_aquatic) + "\n"@
}

/// A record within every limit, with one field replaced, is within them
/// exactly where the new field keeps its own limit.
pub proof fn lemma_each_limit_decides(
    m: MonsterModel,
    name: Seq<char>,
    level: int,
    alignment: Seq<char>,
    monster_type: Seq<char>,
    size: Seq<char>,
    extra: Seq<char>,
)
    requires
        m.valid(),
    ensures
        (MonsterModel { name, ..m }).valid() <==> 0 < name.len() <= 100,
        (MonsterModel { level, ..m }).valid() <==> level <= 25,
        (MonsterModel { alignment, ..m }).valid() <==> alignment.len() <= 2,
        (MonsterModel { monster_type, ..m }).valid() <==> 0 < monster_type.len() <= 100,
        (MonsterModel { size, ..m }).valid() <==> size.len() <= 20,
        (MonsterModel { traits: m.traits.push(extra), ..m }).valid() <==> 0 < extra.len() <= 50,
{
    let more = m.traits.push(extra);
    let changed = MonsterModel { traits: more, ..m };
    if changed.valid() {
        assert(trait_fits(changed.traits[m.traits.len() as int]));
    }
    if trait_fits(extra) {
        assert forall|i: int| 0 <= i < more.len() implies trait_fits(#[trigger] more[i]) by {
            if i < m.traits.len() {
                assert(more[i] == m.traits[i]);
            }
        }
    }
}

/// One of `leads` holds `word`.
pub open spec fn any_has(leads: Seq<Seq<char>>, word: Seq<char>) -> bool {
    exists|i: int| 0 <= i < leads.len() && has_substring(#[trigger] leads[i], word)
}

/// The bold leads of the paragraphs of `document` hold `word`.
pub open spec fn page_has(document: scraper::Html, word: Seq<char>) -> bool {
    any_has(selected_markup(document, "p>b"@), word)
}

/// The record of the page `document`, or the error that ends its processing.
pub open spec fn page_record(document: scraper::Html, url: Seq<char>) -> Result<
    MonsterModel,
    ParseErrorModel,
> {
    match page_title(document, url) {
        Ok(title) => Ok(
            record_of(
                title,
                page_traits(document),
                page_has(document, "Spells"@),
                page_has(document, "Ranged"@),
            ),
        ),
        Err(e) => Err(e),
    }
}

/// What a call returns, as models.
pub open spec fn record_outcome(r: Result<Monster, ParseError>) -> Result<
    MonsterModel,
    ParseErrorModel,
> {
    match r {
        Ok(m) => Ok(m@),
        Err(e) => Err(e@),
    }
}

/// Whether one of `leads` holds `word`.
pub fn any_contains(leads: &Vec<String>, word: &str) -> (r: bool)
    ensures
        r == any_has(texts(leads@), word@),
{
    let n: usize = leads.len();
    let mut i: usize = 0;
    while i < n
        invariant
            i <= n,
            n == leads@.len(),
            forall|j: int| 0 <= j < i ==> !has_substring(#[trigger] texts(leads@)[j], word@),
        decreases n - i,
    {
        if contains(leads[i].as_str(), word) {
            assert(has_substring(texts(leads@)[i as int], word@));
            return true;
        }
        i += 1;
    }
    false
}

/// Whether the bold lead of some paragraph of the page holds `type_str`.
pub fn is_type(document: &scraper::Html, type_str: &str) -> (r: bool)
    ensures
        r == page_has(*document, type_str@),
{
    let leads = select_inner_html(document, "p>b");
    any_contains(&leads, type_str)
}

/// Whether `s` has between `least` and `most` characters.
fn length_within(s: &String, least: usize, most: usize) -> (r: bool)
    ensures
        r == (least <= s@.len() <= most),
{
    let n: usize = s.as_str().unicode_len();
    least <= n && n <= most
}

impl Monster {
    /// Puts a record together from the parts of a page.
    pub fn assemble(title: Title, traits: Traits, is_caster: bool, is_ranged: bool) -> (r: Monster)
        ensures
            r@ == record_of(title@, traits@, is_caster, is_ranged),
    {
        Monster {
            url: trim(title.url.as_str()),
            name: trim(title.name.as_str()),
            level: title.level,
            alignment: trim(traits.alignment.as_str()),
            monster_type: trim(traits.monster_type.as_str()),
            size: trim(traits.size.as_str()),
            traits: traits.traits,
            is_caster,
            is_ranged,
            is_aquatic: traits.aquatic,
        }
    }

    /// Extracts the record of a page. The result is an error exactly where
    /// the title cannot be parsed; fields that the page lacks get their
    /// placeholders.
    pub fn new(document: &scraper::Html, monster_url: &str) -> (r: Result<Monster, ParseError>)
        ensures
            record_outcome(r) == page_record(*document, monster_url@),
    {
        match Title::new(document, monster_url) {
            Ok(title) => {
                let traits = Traits::new(document);
                let is_caster = is_type(document, "Spells");
                let is_ranged = is_type(document, "Ranged");
                Ok(Monster::assemble(title, traits, is_caster, is_ranged))
            },
            Err(e) => Err(e),
        }
    }

    /// The record as text, for display where it is not valid.
    pub fn to_text(&self) -> (out: String)
        ensures
            out@ == rendered(self@),
    {
        let mut out = String::from_str("name: ");
        out.append(self.name.as_str());
        out.append("\nlevel: ");
        out.append(level_text(self.level).as_str());
        out.append("\ntype: ");
        out.append(self.monster_type.as_str());
        out.append("\nalignment: ");
        out.append(self.alignment.as_str());
        out.append("\nsize: ");
        out.append(self.size.as_str());
        out.append("\ntraits: ");
        out.append(debug_list(&self.traits).as_str());
        out.append("\nCaster? ");
        out.append(flag_text(self.is_caster));
        out.append("\nRanged? ");
        out.append(flag_text(self.is_ranged));
        out.append("\nAquatic? ");
        out.append(flag_text(self.is_aquatic));
        out.append("\n");
        out
    }

    /// Whether the record keeps every limit of the schema.
    pub fn validate(&self) -> (r: bool)
        ensures
            r == self@.valid(),
    {
        if !length_within(&self.name, 1, 100) {
            return false;
        }
        if self.level > 25 {
            return false;
        }
        if !length_within(&self.alignment, 0, 2) {
            return false;
        }
        if !length_within(&self.monster_type, 1, 100) {
            return false;
        }
        if !length_within(&self.size, 0, 20) {
            return false;
        }
        let n: usize = self.traits.len();
        let mut i: usize = 0;
        while i < n
            invariant
                i <= n,
                n == self.traits@.len(),
                forall|j: int| 0 <= j < i ==> trait_fits(#[trigger] texts(self.traits@)[j]),
            decreases n - i,
        {
            if !length_within(&self.traits[i], 1, 50) {
                assert(!trait_fits(self@.traits[i as int]));
                return false;
            }
            i += 1;
        }
        true
    }
}

} // verus!
