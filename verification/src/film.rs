//! A film record and the rules an entry must meet before it is accepted.

use vstd::prelude::*;
use vstd::string::*;
use crate::decimal::{decimal_u32, parse_u32};
use crate::fields::{fields, split_fields};
use crate::text::has_prefix;

verus! {

/// The earliest year a film may carry.
pub const YEAR_MIN: u32 = 1800;

/// The latest year a film may carry.
pub const YEAR_MAX: u32 = 2140;

/// The scheme that every address must use.
pub const SECURE_SCHEME: &'static str = "https://";

/// Why an entry was turned away.
#[derive(Clone, Copy, Debug, PartialEq, Eq, Structural)]
pub enum ValidationError {
    /// The input does not consist of exactly three fields.
    MalformedInput,
    /// The year is not a number between `YEAR_MIN` and `YEAR_MAX`.
    InvalidYear,
    /// The address does not use the secure scheme.
    InsecureUrl,
}

/// What a film is, as plain values.
pub struct FilmView {
    pub title: Seq<char>,
    pub year: u32,
    pub url: Seq<char>,
}

/// Whether `year` lies in the accepted range, both ends included.
pub open spec fn year_in_range(year: int) -> bool {
    YEAR_MIN <= year <= YEAR_MAX
}

/// Whether `url` uses the secure scheme.
pub open spec fn is_secure(url: Seq<char>) -> bool {
    SECURE_SCHEME@.is_prefix_of(url)
}

impl FilmView {
    /// The constraints every accepted entry meets.
    pub open spec fn valid(self) -> bool {
        year_in_range(self.year as int) && is_secure(self.url)
    }
}

/// The verdict on three typed fields: the year is judged first, then the
/// address; the first failure wins.
pub open spec fn checked(title: Seq<char>, year: u32, url: Seq<char>) -> Result<
    FilmView,
    ValidationError,
> {
    if !year_in_range(year as int) {
        Err(ValidationError::InvalidYear)
    } else if !is_secure(url) {
        Err(ValidationError::InsecureUrl)
    } else {
        Ok(FilmView { title, year, url })
    }
}

/// The verdict on three raw fields: a year that is no `u32` literal is
/// invalid, and the rest is judged as `checked` does.
pub open spec fn validated(title: Seq<char>, year_raw: Seq<char>, url_raw: Seq<char>) -> Result<
    FilmView,
    ValidationError,
> {
    match decimal_u32(year_raw) {
        Some(year) => checked(title, year, url_raw),
        None => Err(ValidationError::InvalidYear),
    }
}

/// The verdict on a whole payload: it must hold exactly three fields, which
/// are then judged as `validated` does.
pub open spec fn parsed(payload: Seq<char>) -> Result<FilmView, ValidationError> {
    let parts = fields(payload);
    if parts.len() != 3 {
        Err(ValidationError::MalformedInput)
    } else {
        validated(parts[0], parts[1], parts[2])
    }
}

/// Whatever is accepted is valid.
pub proof fn lemma_parsed_valid(payload: Seq<char>)
    ensures
        parsed(payload) matches Ok(film) ==> film.valid(),
{
}

/// A film record. Its fields never change once it exists, and it exists only
/// if it is valid.
#[derive(Debug, PartialEq, Eq)]
pub struct Film {
    title: String,
    year: u32,
    url: String,
}

impl View for Film {
    type V = FilmView;

    closed spec fn view(&self) -> FilmView {
        FilmView { title: self.title@, year: self.year, url: self.url@ }
    }
}

impl Film {
    #[verifier::type_invariant]
    pub open spec fn well_formed(&self) -> bool {
        self@.valid()
    }

    /// Builds a film from typed fields, or says which rule they break.
    pub fn new(title: &str, year: u32, url: &str) -> (r: Result<Film, ValidationError>)
        ensures
            match r {
                Ok(film) => checked(title@, year, url@) == Ok::<FilmView, ValidationError>(film@),
                Err(e) => checked(title@, year, url@) == Err::<FilmView, ValidationError>(e),
            },
    {
        if year < YEAR_MIN || year > YEAR_MAX {
            Err(ValidationError::InvalidYear)
        } else if !has_prefix(url, SECURE_SCHEME) {
            Err(ValidationError::InsecureUrl)
        } else {
            Ok(Film { title: String::from_str(title), year, url: String::from_str(url) })
        }
    }

    /// The title.
    pub fn title(&self) -> (r: &str)
        ensures
            r@ == self@.title,
    {
        self.title.as_str()
    }

    /// The year, which lies in the accepted range.
    pub fn year(&self) -> (r: u32)
        ensures
            r == self@.year,
            year_in_range(r as int),
    {
        proof {
            use_type_invariant(self);
        }
        self.year
    }

    /// The address, which uses the secure scheme.
    pub fn url(&self) -> (r: &str)
        ensures
            r@ == self@.url,
            is_secure(r@),
    {
        proof {
            use_type_invariant(self);
        }
        self.url.as_str()
    }
}

/// The text that the standard formatter writes for a film with these fields
/// in its pretty debug form.
pub uninterp spec fn debug_text(title: Seq<char>, year: u32, url: Seq<char>) -> Seq<char>;

/// Calls `format!` with `{:#?}` on a film, whose `Debug` is derived. The text
/// depends on the three fields alone; what it is, is not stated here.
#[verifier::external_body]
pub(crate) fn describe(film: &Film) -> (text: String)
    ensures
        text@ == debug_text(film@.title, film@.year, film@.url),
{
    format!("{:#?}", film)
}

impl Clone for Film {
    fn clone(&self) -> (r: Self)
        ensures
            r@ == self@,
    {
        proof {
            use_type_invariant(self);
        }
        Film { title: self.title.clone(), year: self.year, url: self.url.clone() }
    }
}

/// Checks three raw fields in order and builds the film they describe: the
/// year must be a number in range, then the address must be secure.
pub fn validate(title: &str, year_raw: &str, url_raw: &str) -> (r: Result<Film, ValidationError>)
    ensures
        match r {
            Ok(film) => validated(title@, year_raw@, url_raw@) == Ok::<FilmView, ValidationError>(
                film@,
            ),
            Err(e) => validated(title@, year_raw@, url_raw@) == Err::<FilmView, ValidationError>(e),
        },
{
    match parse_u32(year_raw) {
        Some(year) => Film::new(title, year, url_raw),
        None => Err(ValidationError::InvalidYear),
    }
}

/// Reads a payload of the form `title,,,year,,,url` and builds the film it
/// describes, or says which rule it breaks first.
pub fn parse_film(payload: &str) -> (r: Result<Film, ValidationError>)
    ensures
        match r {
            Ok(film) => parsed(payload@) == Ok::<FilmView, ValidationError>(film@),
            Err(e) => parsed(payload@) == Err::<FilmView, ValidationError>(e),
        },
{
    let parts = split_fields(payload);
    if parts.len() != 3 {
        Err(ValidationError::MalformedInput)
    } else {
        validate(parts[0].as_str(), parts[1].as_str(), parts[2].as_str())
    }
}

} // verus!
