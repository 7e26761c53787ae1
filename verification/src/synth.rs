//! Synthetic values for text columns, chosen by what the column's name means.
//!
//! A name is held against the categories in a fixed order and the first one
//! that fits decides: a name may fit several. A category fits where one of
//! its keywords stands in the name, letter case aside. Within a category the
//! same test on single keywords picks the kind of text.

use crate::text::{chars_of, contains, contains_ignore_case};
use crate::faker::{
    ends_with_stop, fake_buzzword, fake_city_name, fake_color, fake_company_name,
    fake_company_suffix, fake_country_name, fake_credit_card_number, fake_domain_suffix,
    fake_email, fake_full_name, fake_hex_color, fake_industry, fake_ipv4, fake_job_field,
    fake_job_position, fake_job_seniority, fake_mac_address, fake_number, fake_paragraph,
    fake_phone_number, fake_post_code, fake_rgb_color, fake_secondary_address, fake_sentence,
    fake_state_name, fake_street_name, fake_time_zone, fake_username, fake_word, fake_zip_code,
    fills_format, is_card_number, is_color_lines, is_company_suffix, is_domain_suffix,
    is_example_email, is_hex_color, is_ipv4, is_lower_word, is_mac_address, is_name_and_more,
    is_phone_number, is_post_code, is_rgb_color, is_secondary_address, is_zip_code, starts_lower,
    starts_upper,
};
use vstd::prelude::*;
use vstd::string::StringExecFns;

verus! {

/// What a column name may be about, in order of priority.
#[derive(Clone, Copy, Debug, PartialEq, Eq, Structural)]
pub enum Category {
    Name,
    Email,
    Address,
    Company,
    Internet,
    Payment,
    Phone,
    Color,
    Time,
    Job,
    Lorem,
}

/// The kind of text that a column is filled with.
#[derive(Clone, Copy, Debug, PartialEq, Eq, Structural)]
pub enum TextKind {
    FullName,
    Email,
    StreetName,
    CityName,
    StateName,
    CountryName,
    ZipCode,
    PostCode,
    FullAddress,
    CompanyName,
    Industry,
    Buzzword,
    CompanySuffix,
    DomainSuffix,
    Ipv4,
    MacAddress,
    Username,
    CreditCardNumber,
    PhoneNumber,
    RgbColor,
    HexColor,
    Color,
    TimeZone,
    JobField,
    JobPosition,
    JobSeniority,
    Paragraph,
    Sentence,
    Word,
}

/// The categories, first priority first.
pub open spec fn priority() -> Seq<Category> {
    seq![
        Category::Name,
        Category::Email,
        Category::Address,
        Category::Company,
        Category::Internet,
        Category::Payment,
        Category::Phone,
        Category::Color,
        Category::Time,
        Category::Job,
        Category::Lorem,
    ]
}

/// The keywords of each category.
pub open spec fn keywords_of(category: Category) -> Seq<Seq<char>> {
    match category {
        Category::Name => seq!["name"@, "fullname"@, "username"@],
        Category::Email => seq!["email"@],
        Category::Address => seq![
            "address"@,
            "street"@,
            "city"@,
            "state"@,
            "country"@,
            "zip"@,
            "postal"@,
        ],
        Category::Company => seq!["company"@, "industry"@, "buzzword"@, "business"@],
        Category::Internet => seq!["domain"@, "ip"@, "mac"@],
        Category::Payment => seq!["credit"@, "card"@, "number"@],
        Category::Phone => seq!["phone"@],
        Category::Color => seq!["color"@, "rgb"@, "hex"@],
        Category::Time => seq!["time"@, "zone"@],
        Category::Job => seq!["job"@, "field"@, "position"@, "seniority"@, "title"@],
        Category::Lorem => seq![
            "tweet"@,
            "text"@,
            "post"@,
            "comment"@,
            "review"@,
            "paragraph"@,
            "sentence"@,
            "word"@,
        ],
    }
}

/// Whether one of `keywords` stands in `name`, letter case aside.
pub open spec fn has_any(name: Seq<char>, keywords: Seq<Seq<char>>) -> bool {
    exists|k: int| 0 <= k < keywords.len() && contains_ignore_case(name, #[trigger] keywords[k])
}

/// Whether `name` fits `category`.
pub open spec fn fits(name: Seq<char>, category: Category) -> bool {
    has_any(name, keywords_of(category))
}

/// The first category from place `i` of the priority order on that `name` fits.
pub open spec fn category_from(name: Seq<char>, i: int) -> Option<Category>
    decreases priority().len() - i,
{
    if i < 0 || i >= priority().len() {
        None
    } else if fits(name, priority()[i]) {
        Some(priority()[i])
    } else {
        category_from(name, i + 1)
    }
}

/// The category of `name`: the first in the priority order that it fits.
pub open spec fn category_of(name: Seq<char>) -> Option<Category> {
    category_from(name, 0)
}

/// The view of each string of `v`.
pub open spec fn keyword_views(v: Seq<&'static str>) -> Seq<Seq<char>> {
    Seq::new(v.len(), |i: int| v[i]@)
}

/// The list of [`priority`].
pub fn priority_order() -> (order: Vec<Category>)
    ensures
        order@ == priority(),
{
    let order = vec![
        Category::Name,
        Category::Email,
        Category::Address,
        Category::Company,
        Category::Internet,
        Category::Payment,
        Category::Phone,
        Category::Color,
        Category::Time,
        Category::Job,
        Category::Lorem,
    ];
    assert(order@ =~= priority());
    order
}

/// The list of [`keywords_of`].
pub fn keywords(category: Category) -> (list: Vec<&'static str>)
    ensures
        keyword_views(list@) == keywords_of(category),
{
    let list = match category {
        Category::Name => vec!["name", "fullname", "username"],
        Category::Email => vec!["email"],
        Category::Address => vec!["address", "street", "city", "state", "country", "zip", "postal"],
        Category::Company => vec!["company", "industry", "buzzword", "business"],
        Category::Internet => vec!["domain", "ip", "mac"],
        Category::Payment => vec!["credit", "card", "number"],
        Category::Phone => vec!["phone"],
        Category::Color => vec!["color", "rgb", "hex"],
        Category::Time => vec!["time", "zone"],
        Category::Job => vec!["job", "field", "position", "seniority", "title"],
        Category::Lorem => vec![
            "tweet",
            "text",
            "post",
            "comment",
            "review",
            "paragraph",
            "sentence",
            "word",
        ],
    };
    assert(keyword_views(list@) =~= keywords_of(category));
    list
}

fn has_word(name: &Vec<char>, word: &str) -> (r: bool)
    ensures
        r == contains_ignore_case(name@, word@),
{
    contains(name, &chars_of(word))
}

fn fits_category(name: &Vec<char>, category: Category) -> (r: bool)
    ensures
        r == fits(name@, category),
{
    let list = keywords(category);
    let mut k: usize = 0;
    while k < list.len()
        invariant
            k <= list.len(),
            keyword_views(list@) == keywords_of(category),
            forall|j: int| 0 <= j < k ==> !contains_ignore_case(name@, #[trigger] keywords_of(category)[j]),
        decreases list.len() - k,
    {
        assert(keyword_views(list@)[k as int] == list@[k as int]@);
        if has_word(name, list[k]) {
            return true;
        }
        k += 1;
    }
    false
}

fn category_of_chars(name: &Vec<char>) -> (r: Option<Category>)
    ensures
        r == category_of(name@),
{
    let order = priority_order();
    let mut i: usize = 0;
    while i < order.len()
        invariant
            i <= order.len(),
            order@ == priority(),
            category_of(name@) == category_from(name@, i as int),
        decreases order.len() - i,
    {
        if fits_category(name, order[i]) {
            return Some(order[i]);
        }
        i += 1;
    }
    None
}

/// Finds the category of a column name: see [`category_of`].
pub fn classify(col_name: &str) -> (r: Option<Category>)
    ensures
        r == category_of(col_name@),
{
    category_of_chars(&chars_of(col_name))
}

/// Whether `word` stands in `name`, letter case aside.
pub open spec fn has(name: Seq<char>, word: &str) -> bool {
    contains_ignore_case(name, word@)
}

/// The kind of text for a column called `name`: decided by the category of
/// the name and, within it, by the first keyword listed here that stands in
/// the name. A name of no category gets a single word.
pub open spec fn text_kind_of(name: Seq<char>) -> TextKind {
    match category_of(name) {
        None => TextKind::Word,
        Some(Category::Name) => TextKind::FullName,
        Some(Category::Email) => TextKind::Email,
        Some(Category::Address) => if has(name, "street") {
            TextKind::StreetName
        } else if has(name, "city") {
            TextKind::CityName
        } else if has(name, "state") {
            TextKind::StateName
        } else if has(name, "country") {
            TextKind::CountryName
        } else if has(name, "zip") {
            TextKind::ZipCode
        } else if has(name, "postal") {
            TextKind::PostCode
        } else {
            TextKind::FullAddress
        },
        Some(Category::Company) => if has(name, "company") {
            TextKind::CompanyName
        } else if has(name, "industry") {
            TextKind::Industry
        } else if has(name, "buzzword") {
            TextKind::Buzzword
        } else {
            TextKind::CompanySuffix
        },
        Some(Category::Internet) => if has(name, "domain") {
            TextKind::DomainSuffix
        } else if has(name, "ip") {
            TextKind::Ipv4
        } else if has(name, "mac") {
            TextKind::MacAddress
        } else {
            TextKind::Username
        },
        Some(Category::Payment) => TextKind::CreditCardNumber,
        Some(Category::Phone) => TextKind::PhoneNumber,
        Some(Category::Color) => if has(name, "rgb") {
            TextKind::RgbColor
        } else if has(name, "hex") {
            TextKind::HexColor
        } else {
            TextKind::Color
        },
        Some(Category::Time) => if has(name, "zone") {
            TextKind::TimeZone
        } else {
            TextKind::Word
        },
        Some(Category::Job) => if has(name, "field") {
            TextKind::JobField
        } else if has(name, "position") {
            TextKind::JobPosition
        } else if has(name, "seniority") {
            TextKind::JobSeniority
        } else {
            TextKind::Word
        },
        Some(Category::Lorem) => if has(name, "paragraph") || has(name, "review") || has(
            name,
            "post",
        ) {
            TextKind::Paragraph
        } else if has(name, "sentence") || has(name, "tweet") || has(name, "comment") {
            TextKind::Sentence
        } else {
            TextKind::Word
        },
    }
}

/// Finds the kind of text for a column name: see [`text_kind_of`].
pub fn text_kind(col_name: &str) -> (kind: TextKind)
    ensures
        kind == text_kind_of(col_name@),
{
    let name = chars_of(col_name);
    match category_of_chars(&name) {
        None => TextKind::Word,
        Some(Category::Name) => TextKind::FullName,
        Some(Category::Email) => TextKind::Email,
        Some(Category::Address) => if has_word(&name, "street") {
            TextKind::StreetName
        } else if has_word(&name, "city") {
            TextKind::CityName
        } else if has_word(&name, "state") {
            TextKind::StateName
        } else if has_word(&name, "country") {
            TextKind::CountryName
        } else if has_word(&name, "zip") {
            TextKind::ZipCode
        } else if has_word(&name, "postal") {
            TextKind::PostCode
        } else {
            TextKind::FullAddress
        },
        Some(Category::Company) => if has_word(&name, "company") {
            TextKind::CompanyName
        } else if has_word(&name, "industry") {
            TextKind::Industry
        } else if has_word(&name, "buzzword") {
            TextKind::Buzzword
        } else {
            TextKind::CompanySuffix
        },
        Some(Category::Internet) => if has_word(&name, "domain") {
            TextKind::DomainSuffix
        } else if has_word(&name, "ip") {
            TextKind::Ipv4
        } else if has_word(&name, "mac") {
            TextKind::MacAddress
        } else {
            TextKind::Username
        },
        Some(Category::Payment) => TextKind::CreditCardNumber,
        Some(Category::Phone) => TextKind::PhoneNumber,
        Some(Category::Color) => if has_word(&name, "rgb") {
            TextKind::RgbColor
        } else if has_word(&name, "hex") {
            TextKind::HexColor
        } else {
            TextKind::Color
        },
        Some(Category::Time) => if has_word(&name, "zone") {
            TextKind::TimeZone
        } else {
            TextKind::Word
        },
        Some(Category::Job) => if has_word(&name, "field") {
            TextKind::JobField
        } else if has_word(&name, "position") {
            TextKind::JobPosition
        } else if has_word(&name, "seniority") {
            TextKind::JobSeniority
        } else {
            TextKind::Word
        },
        Some(Category::Lorem) => if has_word(&name, "paragraph") || has_word(&name, "review")
            || has_word(&name, "post") {
            TextKind::Paragraph
        } else if has_word(&name, "sentence") || has_word(&name, "tweet") || has_word(
            &name,
            "comment",
        ) {
            TextKind::Sentence
        } else {
            TextKind::Word
        },
    }
}

/// The address line made of its six parts.
pub open spec fn full_address_of(
    number: Seq<char>,
    street: Seq<char>,
    secondary: Seq<char>,
    city: Seq<char>,
    zip: Seq<char>,
    country: Seq<char>,
) -> Seq<char> {
    number + " "@ + street + ", "@ + secondary + ", "@ + city + ", "@ + zip + ", "@ + country
}

/// Writes an address line: the number and the street, then the secondary
/// address, the city, the zip code and the country, each after a comma.
pub fn compose_address(
    number: &str,
    street: &str,
    secondary: &str,
    city: &str,
    zip: &str,
    country: &str,
) -> (line: String)
    ensures
        line@ == full_address_of(number@, street@, secondary@, city@, zip@, country@),
{
    let mut line = String::from_str(number);
    line.append(" ");
    line.append(street);
    line.append(", ");
    line.append(secondary);
    line.append(", ");
    line.append(city);
    line.append(", ");
    line.append(zip);
    line.append(", ");
    line.append(country);
    line
}

/// Whether `line` is an address line: a number of four digits, a street, a
/// secondary address, a city, a zip code and a country, each of its own
/// shape.
pub open spec fn is_full_address(line: Seq<char>) -> bool {
    exists|
        number: Seq<char>,
        street: Seq<char>,
        secondary: Seq<char>,
        city: Seq<char>,
        zip: Seq<char>,
        country: Seq<char>,
    |
        fills_format("####"@, number) && is_name_and_more(street) && is_secondary_address(
            secondary,
        ) && is_name_and_more(city) && is_zip_code(zip) && starts_upper(country) && line
            == #[trigger] full_address_of(number, street, secondary, city, zip, country)
}

/// What is known of every text of the kind `kind`.
pub open spec fn shape_of(kind: TextKind, text: Seq<char>) -> bool {
    match kind {
        TextKind::FullName => is_name_and_more(text),
        TextKind::Email => is_example_email(text),
        TextKind::StreetName => is_name_and_more(text),
        TextKind::CityName => is_name_and_more(text),
        TextKind::StateName => starts_upper(text),
        TextKind::CountryName => starts_upper(text),
        TextKind::ZipCode => is_zip_code(text),
        TextKind::PostCode => is_post_code(text),
        TextKind::FullAddress => is_full_address(text),
        TextKind::CompanyName => is_name_and_more(text),
        TextKind::Industry => starts_upper(text),
        TextKind::Buzzword => starts_upper(text),
        TextKind::CompanySuffix => is_company_suffix(text),
        TextKind::DomainSuffix => is_domain_suffix(text),
        TextKind::Ipv4 => is_ipv4(text),
        TextKind::MacAddress => is_mac_address(text),
        TextKind::Username => starts_lower(text),
        TextKind::CreditCardNumber => is_card_number(text),
        TextKind::PhoneNumber => is_phone_number(text),
        TextKind::RgbColor => is_rgb_color(text),
        TextKind::HexColor => is_hex_color(text),
        TextKind::Color => is_color_lines(text),
        TextKind::TimeZone => starts_upper(text),
        TextKind::JobField => starts_upper(text),
        TextKind::JobPosition => starts_upper(text),
        TextKind::JobSeniority => starts_upper(text),
        TextKind::Paragraph => ends_with_stop(text),
        TextKind::Sentence => ends_with_stop(text),
        TextKind::Word => is_lower_word(text),
    }
}

/// Makes up an address line: a number of four digits, a street, a secondary
/// address, a city, a zip code and a country.
pub fn fake_full_address() -> (line: String)
    ensures
        is_full_address(line@),
{
    let number = fake_number("####");
    let street = fake_street_name();
    let secondary = fake_secondary_address();
    let city = fake_city_name();
    let zip = fake_zip_code();
    let country = fake_country_name();
    compose_address(
        number.as_str(),
        street.as_str(),
        secondary.as_str(),
        city.as_str(),
        zip.as_str(),
        country.as_str(),
    )
}

/// Makes up one text of the kind `kind`. A paragraph has 3 to 9 sentences, a
/// sentence 5 to 14 words.
pub fn fake_text(kind: TextKind) -> (text: String)
    ensures
        shape_of(kind, text@),
{
    match kind {
        TextKind::FullName => fake_full_name(),
        TextKind::Email => fake_email(),
        TextKind::StreetName => fake_street_name(),
        TextKind::CityName => fake_city_name(),
        TextKind::StateName => fake_state_name(),
        TextKind::CountryName => fake_country_name(),
        TextKind::ZipCode => fake_zip_code(),
        TextKind::PostCode => fake_post_code(),
        TextKind::FullAddress => fake_full_address(),
        TextKind::CompanyName => fake_company_name(),
        TextKind::Industry => fake_industry(),
        TextKind::Buzzword => fake_buzzword(),
        TextKind::CompanySuffix => fake_company_suffix(),
        TextKind::DomainSuffix => fake_domain_suffix(),
        TextKind::Ipv4 => fake_ipv4(),
        TextKind::MacAddress => fake_mac_address(),
        TextKind::Username => fake_username(),
        TextKind::CreditCardNumber => fake_credit_card_number(),
        TextKind::PhoneNumber => fake_phone_number(),
        TextKind::RgbColor => fake_rgb_color(),
        TextKind::HexColor => fake_hex_color(),
        TextKind::Color => fake_color(),
        TextKind::TimeZone => fake_time_zone(),
        TextKind::JobField => fake_job_field(),
        TextKind::JobPosition => fake_job_position(),
        TextKind::JobSeniority => fake_job_seniority(),
        TextKind::Paragraph => fake_paragraph(3, 10),
        TextKind::Sentence => fake_sentence(5, 15),
        TextKind::Word => fake_word(),
    }
}

/// Makes up `num_rows` texts for the column called `col_name`, all of the
/// kind that the name calls for.
pub fn generate_fake_string_data(col_name: &str, num_rows: usize) -> (data: Vec<String>)
    ensures
        data@.len() == num_rows,
        forall|i: int|
            0 <= i < num_rows ==> shape_of(text_kind_of(col_name@), #[trigger] data@[i]@),
{
    let kind = text_kind(col_name);
    let mut data: Vec<String> = Vec::new();
    let mut i: usize = 0;
    while i < num_rows
        invariant
            i <= num_rows,
            data@.len() == i,
            forall|k: int| 0 <= k < i ==> shape_of(kind, #[trigger] data@[k]@),
        decreases num_rows - i,
    {
        let text = fake_text(kind);
        data.push(text);
        i += 1;
    }
    data
}

/// The first category in the order that a name fits is its category,
/// whatever later categories it fits as well.
pub proof fn first_fitting_category_wins(name: Seq<char>, i: int)
    requires
        0 <= i < priority().len(),
        fits(name, priority()[i]),
        forall|j: int| 0 <= j < i ==> !fits(name, #[trigger] priority()[j]),
    ensures
        category_of(name) == Some(priority()[i]),
{
    lemma_category_from(name, 0, i);
}

proof fn lemma_category_from(name: Seq<char>, from: int, i: int)
    requires
        0 <= from <= i < priority().len(),
        fits(name, priority()[i]),
        forall|j: int| from <= j < i ==> !fits(name, #[trigger] priority()[j]),
    ensures
        category_from(name, from) == Some(priority()[i]),
    decreases i - from,
{
    if from < i {
        lemma_category_from(name, from + 1, i);
    }
}

/// A name without a category fits none.
pub proof fn name_without_category_fits_none(name: Seq<char>, i: int)
    requires
        category_of(name) is None,
        0 <= i < priority().len(),
    ensures
        !fits(name, priority()[i]),
{
    lemma_no_category_from(name, 0, i);
}

proof fn lemma_no_category_from(name: Seq<char>, from: int, i: int)
    requires
        0 <= from <= i < priority().len(),
        category_from(name, from) is None,
    ensures
        !fits(name, priority()[i]),
    decreases i - from,
{
    if from < i {
        lemma_no_category_from(name, from + 1, i);
    }
}

/// A name that holds `email` and none of the keywords of a name is filled
/// with email addresses, though it may hold the keywords of later
/// categories, `company` among them.
pub proof fn email_wins_over_later_categories(name: Seq<char>)
    requires
        fits(name, Category::Email),
        !fits(name, Category::Name),
    ensures
        category_of(name) == Some(Category::Email),
        text_kind_of(name) == TextKind::Email,
{
    assert(priority()[0] == Category::Name);
    assert(priority()[1] == Category::Email);
    first_fitting_category_wins(name, 1);
}

} // verus!
