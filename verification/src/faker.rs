//! The bridge to the `fake` crate, which makes up plausible values.
//!
//! Nothing here is proved. Each function states what the source of its
//! generator, and the English word lists that it draws from, show of every
//! text that can come out: the shape, never which text it is.

use crate::random::is_lower_hex;
use crate::text::{all_digits, digits_of};
use fake::faker::address::en::{
    CityName, CountryName, PostCode, SecondaryAddress, StateName, StreetName, TimeZone, ZipCode,
};
use fake::faker::color::en::{Color, HexColor, RgbColor};
use fake::faker::company::en::{Buzzword, CompanyName, CompanySuffix, Industry};
use fake::faker::creditcard::en::CreditCardNumber;
use fake::faker::internet::en::{DomainSuffix, IPv4, MACAddress, SafeEmail, Username};
use fake::faker::job::en::{Field, Position, Seniority};
use fake::faker::lorem::en::{Paragraph, Sentence, Word};
use fake::faker::name::en::Name;
use fake::faker::number::en::NumberWithFormat;
use fake::faker::phone_number::en::PhoneNumber;
use fake::Fake;
use vstd::prelude::*;

verus! {

/// Whether `text` starts with one of `A` to `Z`.
pub open spec fn starts_upper(text: Seq<char>) -> bool {
    text.len() > 0 && 'A' <= text[0] <= 'Z'
}

/// Whether `text` starts with one of `a` to `z`.
pub open spec fn starts_lower(text: Seq<char>) -> bool {
    text.len() > 0 && 'a' <= text[0] <= 'z'
}

/// Whether `text` is a non-empty run of the letters `a` to `z`.
pub open spec fn is_lower_word(text: Seq<char>) -> bool {
    text.len() > 0 && forall|i: int| 0 <= i < text.len() ==> 'a' <= #[trigger] text[i] <= 'z'
}

/// Whether `text` ends with a full stop.
pub open spec fn ends_with_stop(text: Seq<char>) -> bool {
    text.len() > 0 && text.last() == '.'
}

/// `first`, a space, and `rest`.
pub open spec fn spaced(first: Seq<char>, rest: Seq<char>) -> Seq<char> {
    first + " "@ + rest
}

/// Whether `text` is a capitalised word, a space, and more.
pub open spec fn is_name_and_more(text: Seq<char>) -> bool {
    exists|first: Seq<char>, rest: Seq<char>|
        starts_upper(first) && rest.len() > 0 && text == #[trigger] spaced(first, rest)
}

/// The address `user` at the example domain under `tld`.
pub open spec fn example_email_of(user: Seq<char>, tld: Seq<char>) -> Seq<char> {
    user + "@example."@ + tld
}

/// Whether `text` is an address at `example.com`, `example.net` or
/// `example.org` whose user is written in the letters `a` to `z`.
pub open spec fn is_example_email(text: Seq<char>) -> bool {
    exists|user: Seq<char>, tld: Seq<char>|
        is_lower_word(user) && (tld == "com"@ || tld == "net"@ || tld == "org"@) && text
            == #[trigger] example_email_of(user, tld)
}

/// Whether `text` is `Apt.` or `Suit.`, a space, and a number from 1 to 98.
pub open spec fn is_secondary_address(text: Seq<char>) -> bool {
    exists|n: nat|
        1 <= n < 99 && (text == "Apt. "@ + #[trigger] digits_of(n) || text == "Suit. "@
            + digits_of(n))
}

/// The four numbers with dots between them.
pub open spec fn dotted(a: nat, b: nat, c: nat, d: nat) -> Seq<char> {
    digits_of(a) + "."@ + digits_of(b) + "."@ + digits_of(c) + "."@ + digits_of(d)
}

/// Whether `text` is an IPv4 address: four numbers below 256 in base ten,
/// with dots between them.
pub open spec fn is_ipv4(text: Seq<char>) -> bool {
    exists|a: nat, b: nat, c: nat, d: nat|
        a < 256 && b < 256 && c < 256 && d < 256 && text == #[trigger] dotted(a, b, c, d)
}

/// Whether `c` is a hexadecimal digit in upper case.
pub open spec fn is_upper_hex(c: char) -> bool {
    ('0' <= c <= '9') || ('A' <= c <= 'F')
}

/// Whether `text` is a MAC address: six pairs of upper-case hexadecimal
/// digits with colons between them.
pub open spec fn is_mac_address(text: Seq<char>) -> bool {
    &&& text.len() == 17
    &&& forall|i: int|
        0 <= i < 17 ==> if i % 3 == 2 {
            #[trigger] text[i] == ':'
        } else {
            is_upper_hex(text[i])
        }
}

/// Whether `text` is a number of 13, 15 or 16 digits.
pub open spec fn is_card_number(text: Seq<char>) -> bool {
    all_digits(text) && (text.len() == 13 || text.len() == 15 || text.len() == 16)
}

/// The three numbers in `rgb(..)` notation.
pub open spec fn rgb_of(r: nat, g: nat, b: nat) -> Seq<char> {
    "rgb("@ + digits_of(r) + ", "@ + digits_of(g) + ", "@ + digits_of(b) + ")"@
}

/// Whether `text` is a colour in `rgb(..)` notation, each part below 256.
pub open spec fn is_rgb_color(text: Seq<char>) -> bool {
    exists|r: nat, g: nat, b: nat| r < 256 && g < 256 && b < 256 && text == #[trigger] rgb_of(r, g, b)
}

/// Whether `text` is a colour in `#rrggbb` notation, in lower case.
pub open spec fn is_hex_color(text: Seq<char>) -> bool {
    &&& text.len() == 7
    &&& text[0] == '#'
    &&& forall|i: int| 1 <= i < 7 ==> is_lower_hex(#[trigger] text[i])
}

/// `first`, a line break, and `rest`.
pub open spec fn lined(first: Seq<char>, rest: Seq<char>) -> Seq<char> {
    first + "\n"@ + rest
}

/// Whether the first line of `text` is a colour in `#rrggbb` notation and
/// more lines follow.
pub open spec fn is_color_lines(text: Seq<char>) -> bool {
    exists|first: Seq<char>, rest: Seq<char>|
        is_hex_color(first) && text == #[trigger] lined(first, rest)
}

/// Whether `text` is `format` with a digit in place of each `#` and a digit
/// other than zero in place of each `^`.
pub open spec fn fills_format(format: Seq<char>, text: Seq<char>) -> bool {
    &&& text.len() == format.len()
    &&& forall|i: int|
        0 <= i < format.len() ==> if format[i] == '#' {
            '0' <= #[trigger] text[i] <= '9'
        } else if format[i] == '^' {
            '1' <= text[i] <= '9'
        } else {
            text[i] == format[i]
        }
}

/// Whether `text` is a zip code: five, four or three digits.
pub open spec fn is_zip_code(text: Seq<char>) -> bool {
    fills_format("#####"@, text) || fills_format("####"@, text) || fills_format("###"@, text)
}

/// Whether `text` is a postal code: five digits, or five and four with a
/// hyphen between them.
pub open spec fn is_post_code(text: Seq<char>) -> bool {
    fills_format("#####"@, text) || fills_format("#####-####"@, text)
}

/// The formats of a phone number.
pub open spec fn phone_formats() -> Seq<Seq<char>> {
    seq![
        "(^##) ###-#### x###"@,
        "(^##) ###-#### x####"@,
        "(^##) ###-#### x#####"@,
        "(^##) ###-####"@,
        "1-^##-###-#### x###"@,
        "1-^##-###-#### x####"@,
        "1-^##-###-#### x#####"@,
        "1-^##-###-####"@,
        "^##-###-#### x###"@,
        "^##-###-#### x####"@,
        "^##-###-#### x#####"@,
        "^##-###-####"@,
        "^##.###.#### x###"@,
        "^##.###.#### x####"@,
        "^##.###.#### x#####"@,
        "^##.###.####"@,
    ]
}

/// Whether `text` fills one of the [`phone_formats`].
pub open spec fn is_phone_number(text: Seq<char>) -> bool {
    exists|k: int| 0 <= k < phone_formats().len() && fills_format(#[trigger] phone_formats()[k], text)
}

/// Whether `text` is one of the four company suffixes.
pub open spec fn is_company_suffix(text: Seq<char>) -> bool {
    text == "Inc"@ || text == "and Sons"@ || text == "LLC"@ || text == "Group"@
}

/// Whether `text` is one of the eight domain suffixes.
pub open spec fn is_domain_suffix(text: Seq<char>) -> bool {
    text == "com"@ || text == "biz"@ || text == "info"@ || text == "name"@ || text == "net"@
        || text == "org"@ || text == "io"@ || text == "co"@
}

/// `fake::faker::name::en::Name`: a first name, a space and a last name, both
/// drawn from lists of capitalised names.
#[verifier::external_body]
pub(crate) fn fake_full_name() -> (text: String)
    ensures
        is_name_and_more(text@),
{
    Name().fake()
}

/// `fake::faker::internet::en::SafeEmail`: a first name in lower case at
/// `example.com`, `example.net` or `example.org`; the first names hold letters
/// only.
#[verifier::external_body]
pub(crate) fn fake_email() -> (text: String)
    ensures
        is_example_email(text@),
{
    SafeEmail().fake()
}

/// `fake::faker::address::en::StreetName`: a first or last name, a space and a
/// street suffix.
#[verifier::external_body]
pub(crate) fn fake_street_name() -> (text: String)
    ensures
        is_name_and_more(text@),
{
    StreetName().fake()
}

/// `fake::faker::address::en::CityName`: a name, a space and a city suffix,
/// with a capitalised prefix and a space in front in one case of five.
#[verifier::external_body]
pub(crate) fn fake_city_name() -> (text: String)
    ensures
        is_name_and_more(text@),
{
    CityName().fake()
}

/// `fake::faker::address::en::StateName`: one of a list of state names, each of
/// which starts with a capital letter.
#[verifier::external_body]
pub(crate) fn fake_state_name() -> (text: String)
    ensures
        starts_upper(text@),
{
    StateName().fake()
}

/// `fake::faker::address::en::CountryName`: one of a list of country names,
/// each of which starts with a capital letter.
#[verifier::external_body]
pub(crate) fn fake_country_name() -> (text: String)
    ensures
        starts_upper(text@),
{
    CountryName().fake()
}

/// `fake::faker::address::en::ZipCode`: one of the formats `#####`, `####` and
/// `###`, with a digit for each `#`.
#[verifier::external_body]
pub(crate) fn fake_zip_code() -> (text: String)
    ensures
        is_zip_code(text@),
{
    ZipCode().fake()
}

/// `fake::faker::address::en::PostCode`: one of the formats `#####` and
/// `#####-####`, with a digit for each `#`.
#[verifier::external_body]
pub(crate) fn fake_post_code() -> (text: String)
    ensures
        is_post_code(text@),
{
    PostCode().fake()
}

/// `fake::faker::address::en::SecondaryAddress`: `Apt.` or `Suit.`, a space,
/// and a number drawn from `1..99`.
#[verifier::external_body]
pub(crate) fn fake_secondary_address() -> (text: String)
    ensures
        is_secondary_address(text@),
{
    SecondaryAddress().fake()
}

/// `fake::faker::address::en::TimeZone`: one of a list of time zone names, each
/// of which starts with a capital letter.
#[verifier::external_body]
pub(crate) fn fake_time_zone() -> (text: String)
    ensures
        starts_upper(text@),
{
    TimeZone().fake()
}

/// `fake::faker::company::en::CompanyName`: a last name, a space and a suffix,
/// with `and` and a second last name between them in one of two templates.
#[verifier::external_body]
pub(crate) fn fake_company_name() -> (text: String)
    ensures
        is_name_and_more(text@),
{
    CompanyName().fake()
}

/// `fake::faker::company::en::Industry`: one of a list of industries, each of
/// which starts with a capital letter.
#[verifier::external_body]
pub(crate) fn fake_industry() -> (text: String)
    ensures
        starts_upper(text@),
{
    Industry().fake()
}

/// `fake::faker::company::en::Buzzword`: one of a list of buzzwords, each of
/// which starts with a capital letter.
#[verifier::external_body]
pub(crate) fn fake_buzzword() -> (text: String)
    ensures
        starts_upper(text@),
{
    Buzzword().fake()
}

/// `fake::faker::company::en::CompanySuffix`: one of `Inc`, `and Sons`, `LLC`
/// and `Group`.
#[verifier::external_body]
pub(crate) fn fake_company_suffix() -> (text: String)
    ensures
        is_company_suffix(text@),
{
    CompanySuffix().fake()
}

/// `fake::faker::internet::en::DomainSuffix`: one of `com`, `biz`, `info`,
/// `name`, `net`, `org`, `io` and `co`.
#[verifier::external_body]
pub(crate) fn fake_domain_suffix() -> (text: String)
    ensures
        is_domain_suffix(text@),
{
    DomainSuffix().fake()
}

/// `fake::faker::internet::en::IPv4`: four bytes in base ten with dots between
/// them.
#[verifier::external_body]
pub(crate) fn fake_ipv4() -> (text: String)
    ensures
        is_ipv4(text@),
{
    IPv4().fake()
}

/// `fake::faker::internet::en::MACAddress`: six bytes, each as two upper-case
/// hexadecimal digits, with colons between them.
#[verifier::external_body]
pub(crate) fn fake_mac_address() -> (text: String)
    ensures
        is_mac_address(text@),
{
    MACAddress().fake()
}

/// `fake::faker::internet::en::Username`: one of four forms, each of which
/// starts with a first name in lower case or with a filler word.
#[verifier::external_body]
pub(crate) fn fake_username() -> (text: String)
    ensures
        starts_lower(text@),
{
    Username().fake()
}

/// `fake::faker::creditcard::en::CreditCardNumber`: digits only: a prefix of
/// one or two, then 11 to 14 more, then a check digit, which makes 13, 15 or
/// 16.
#[verifier::external_body]
pub(crate) fn fake_credit_card_number() -> (text: String)
    ensures
        is_card_number(text@),
{
    CreditCardNumber().fake()
}

/// `fake::faker::phone_number::en::PhoneNumber`: one of sixteen formats, with a
/// digit for each `#` and a digit other than zero for each `^`.
#[verifier::external_body]
pub(crate) fn fake_phone_number() -> (text: String)
    ensures
        is_phone_number(text@),
{
    PhoneNumber().fake()
}

/// `fake::faker::color::en::RgbColor`:
/// `random_color::RandomColor::to_rgb_string`, which writes three bytes in base
/// ten as `rgb(r, g, b)`.
#[verifier::external_body]
pub(crate) fn fake_rgb_color() -> (text: String)
    ensures
        is_rgb_color(text@),
{
    RgbColor().fake()
}

/// `fake::faker::color::en::HexColor`: `random_color::RandomColor::to_hex`,
/// which writes `#` and three bytes, each as two lower-case hexadecimal digits.
#[verifier::external_body]
pub(crate) fn fake_hex_color() -> (text: String)
    ensures
        is_hex_color(text@),
{
    HexColor().fake()
}

/// `fake::faker::color::en::Color`: one colour in five notations, one per line,
/// the `#rrggbb` notation first.
#[verifier::external_body]
pub(crate) fn fake_color() -> (text: String)
    ensures
        is_color_lines(text@),
{
    Color().fake()
}

/// `fake::faker::job::en::Field`: one of a list of fields of work, each of
/// which starts with a capital letter.
#[verifier::external_body]
pub(crate) fn fake_job_field() -> (text: String)
    ensures
        starts_upper(text@),
{
    Field().fake()
}

/// `fake::faker::job::en::Position`: one of a list of positions, each of which
/// starts with a capital letter.
#[verifier::external_body]
pub(crate) fn fake_job_position() -> (text: String)
    ensures
        starts_upper(text@),
{
    Position().fake()
}

/// `fake::faker::job::en::Seniority`: one of a list of levels of seniority,
/// each of which starts with a capital letter.
#[verifier::external_body]
pub(crate) fn fake_job_seniority() -> (text: String)
    ensures
        starts_upper(text@),
{
    Seniority().fake()
}

/// `fake::faker::lorem::en::Word`: one of a list of filler words, each written
/// in the letters `a` to `z`.
#[verifier::external_body]
pub(crate) fn fake_word() -> (text: String)
    ensures
        is_lower_word(text@),
{
    Word().fake()
}

/// `fake::faker::lorem::en::Sentence` over the half-open range `lo..hi`: that
/// many filler words with spaces between them, and a full stop at the end.
/// The generator draws the count with `gen_range`, which panics on an empty
/// range; `lo < hi` rules that out.
#[verifier::external_body]
pub(crate) fn fake_sentence(lo: usize, hi: usize) -> (text: String)
    requires
        lo < hi,
    ensures
        ends_with_stop(text@),
{
    Sentence(lo..hi).fake()
}

/// `fake::faker::lorem::en::Paragraph` over the half-open range `lo..hi`: that
/// many sentences, one per line, each with a full stop at its end; so a
/// paragraph of at least one sentence ends with a full stop. The generator
/// draws the count with `gen_range`, which panics on an empty range;
/// `lo < hi` rules that out.
#[verifier::external_body]
pub(crate) fn fake_paragraph(lo: usize, hi: usize) -> (text: String)
    requires
        lo < hi,
    ensures
        lo > 0 ==> ends_with_stop(text@),
{
    Paragraph(lo..hi).fake()
}

/// `fake::faker::number::en::NumberWithFormat`: the format, character by
/// character, with a random digit for each `#` and a random digit from 1 to 9
/// for each `^`.
#[verifier::external_body]
pub(crate) fn fake_number(format: &str) -> (text: String)
    ensures
        fills_format(format@, text@),
{
    NumberWithFormat(format).fake()
}

} // verus!
