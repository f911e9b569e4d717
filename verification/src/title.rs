//! The creature's name and level, read from the title header of a page.
//!
//! A title is the name, then markup, then text that holds the level. The
//! first `<` parts the name from the rest.

use vstd::prelude::*;
use vstd::string::*;
use crate::digits::{get_digit, level_of};
use crate::document::{select_inner_html, selected_markup};
use crate::error::{ParseError, ParseErrorModel};
use crate::text::{
    contains, find_first, first_index, has_substring, texts, to_chars, trim, trimmed,
};

verus! {

/// What the title header of a page gives.
pub struct Title {
    pub url: String,
    pub name: String,
    pub level: i32,
}

/// `Title` as mathematical values.
pub ghost struct TitleModel {
    pub url: Seq<char>,
    pub name: Seq<char>,
    pub level: int,
}

impl View for Title {
    type V = TitleModel;

    open spec fn view(&self) -> TitleModel {
        TitleModel { url: self.url@, name: self.name@, level: self.level as int }
    }
}

/// What a call returns, as models.
pub open spec fn title_outcome(r: Result<Title, ParseError>) -> Result<
    TitleModel,
    ParseErrorModel,
> {
    match r {
        Ok(t) => Ok(t@),
        Err(e) => Err(e@),
    }
}

/// The title that the markup `title` gives: the name is what stands before
/// the first `<`, trimmed, and the level is read from what follows it. An
/// error carries the name as it stands in the markup.
pub open spec fn parsed_title(title: Seq<char>, url: Seq<char>) -> Result<
    TitleModel,
    ParseErrorModel,
> {
    let k = first_index(title, '<');
    if k < title.len() {
        let name = title.subrange(0, k);
        let rest = title.subrange(k + 1, title.len() as int);
        match level_of(rest) {
            Some(level) => Ok(TitleModel { url, name: trimmed(name), level }),
            None => Err(ParseErrorModel::BadLevel { text: rest, name }),
        }
    } else {
        Err(ParseErrorModel::MissingDelimiter { title })
    }
}

/// The position of the last header that holds the word `level`, or -1.
pub open spec fn last_level_header(headers: Seq<Seq<char>>) -> int
    decreases headers.len(),
{
    if headers.len() == 0 {
        -1
    } else if has_substring(headers.last(), "level"@) {
        headers.len() - 1
    } else {
        last_level_header(headers.drop_last())
    }
}

/// The title of a page whose title headers hold `primary` and whose headers
/// of any kind hold `headers`. The first title header decides; without one,
/// the last header that holds the word `level`; without that, a placeholder
/// that is no error.
pub open spec fn extracted_title(
    primary: Seq<Seq<char>>,
    headers: Seq<Seq<char>>,
    url: Seq<char>,
) -> Result<TitleModel, ParseErrorModel> {
    if primary.len() > 0 {
        parsed_title(primary[0], url)
    } else {
        let k = last_level_header(headers);
        if k >= 0 {
            parsed_title(headers[k], url)
        } else {
            Ok(TitleModel { url, name: "Parse Failed"@, level: 0 })
        }
    }
}

/// The title of the page `document`.
pub open spec fn page_title(document: scraper::Html, url: Seq<char>) -> Result<
    TitleModel,
    ParseErrorModel,
> {
    extracted_title(
        selected_markup(document, "h4[class=\"monster\"]"@),
        selected_markup(document, "h4"@),
        url,
    )
}

/// Parts the title markup at its first `<` into name and level text.
pub fn parse_title(title: String, url: &str) -> (r: Result<Title, ParseError>)
    ensures
        title_outcome(r) == parsed_title(title@, url@),
{
    let chars = to_chars(title.as_str());
    let k: usize = find_first(&chars, '<');
    if k < chars.len() {
        let name = title.as_str().substring_char(0, k);
        let rest = title.as_str().substring_char(k + 1, chars.len());
        match get_digit(rest, name) {
            Ok(level) => Ok(Title { url: String::from_str(url), name: trim(name), level }),
            Err(e) => Err(e),
        }
    } else {
        Err(ParseError::MissingDelimiter { title })
    }
}

/// The position after the last header that holds the word `level`; 0 where
/// none does.
fn level_header_end(headers: &Vec<String>) -> (i: usize)
    ensures
        i <= headers@.len(),
        i == last_level_header(texts(headers@)) + 1,
{
    let mut i: usize = headers.len();
    assert(texts(headers@).subrange(0, i as int) =~= texts(headers@));
    while i > 0 && !contains(headers[i - 1].as_str(), "level")
        invariant
            i <= headers@.len(),
            last_level_header(texts(headers@)) == last_level_header(
                texts(headers@).subrange(0, i as int),
            ),
        decreases i,
    {
        assert(texts(headers@).subrange(0, i as int).drop_last() =~= texts(headers@).subrange(
            0,
            i as int - 1,
        ));
        i -= 1;
    }
    i
}

impl Title {
    /// The title of a page, from the inner markup of its title headers and
    /// of its headers of any kind, each in document order.
    pub fn from_headers(primary: &Vec<String>, headers: &Vec<String>, url: &str) -> (r: Result<
        Title,
        ParseError,
    >)
        ensures
            title_outcome(r) == extracted_title(texts(primary@), texts(headers@), url@),
    {
        if primary.len() > 0 {
            parse_title(primary[0].clone(), url)
        } else {
            let end: usize = level_header_end(headers);
            if end > 0 {
                parse_title(headers[end - 1].clone(), url)
            } else {
                Ok(
                    Title {
                        url: String::from_str(url),
                        name: String::from_str("Parse Failed"),
                        level: 0,
                    },
                )
            }
        }
    }

    /// Reads the title off the page.
    pub fn new(document: &scraper::Html, url: &str) -> (r: Result<Title, ParseError>)
        ensures
            title_outcome(r) == page_title(*document, url@),
    {
        let primary = select_inner_html(document, "h4[class=\"monster\"]");
        if primary.len() > 0 {
            Title::from_headers(&primary, &Vec::new(), url)
        } else {
            let headers = select_inner_html(document, "h4");
            Title::from_headers(&primary, &headers, url)
        }
    }
}

} // verus!
