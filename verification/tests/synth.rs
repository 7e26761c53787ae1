use lernspark::synth::{
    classify, compose_address, fake_full_address, fake_text, generate_fake_string_data, keywords,
    priority_order, text_kind, Category, TextKind,
};

fn all_kinds() -> Vec<TextKind> {
    vec![
        TextKind::FullName,
        TextKind::Email,
        TextKind::StreetName,
        TextKind::CityName,
        TextKind::StateName,
        TextKind::CountryName,
        TextKind::ZipCode,
        TextKind::PostCode,
        TextKind::FullAddress,
        TextKind::CompanyName,
        TextKind::Industry,
        TextKind::Buzzword,
        TextKind::CompanySuffix,
        TextKind::DomainSuffix,
        TextKind::Ipv4,
        TextKind::MacAddress,
        TextKind::Username,
        TextKind::CreditCardNumber,
        TextKind::PhoneNumber,
        TextKind::RgbColor,
        TextKind::HexColor,
        TextKind::Color,
        TextKind::TimeZone,
        TextKind::JobField,
        TextKind::JobPosition,
        TextKind::JobSeniority,
        TextKind::Paragraph,
        TextKind::Sentence,
        TextKind::Word,
    ]
}

#[test]
fn company_email_is_an_email_column() {
    assert_eq!(classify("company_email"), Some(Category::Email));
    assert_eq!(text_kind("company_email"), TextKind::Email);
}

#[test]
fn earlier_category_wins_for_every_pair() {
    let order = priority_order();
    assert_eq!(order.len(), 11);
    // One keyword of each category that stands in no keyword of another.
    let own = [
        "name", "email", "street", "company", "domain", "credit", "phone", "color", "zone",
        "job", "tweet",
    ];
    for i in 0..order.len() {
        assert_eq!(classify(own[i]), Some(order[i]));
        for j in (i + 1)..order.len() {
            let later_first = format!("{}_{}", own[j], own[i]);
            let earlier_first = format!("{}_{}", own[i], own[j]);
            assert_eq!(classify(&later_first), Some(order[i]), "{}", later_first);
            assert_eq!(classify(&earlier_first), Some(order[i]), "{}", earlier_first);
        }
    }
}

#[test]
fn every_keyword_fits_its_own_category_or_an_earlier_one() {
    let order = priority_order();
    for (place, category) in order.iter().enumerate() {
        for word in keywords(*category) {
            let found = classify(word).unwrap();
            let found_place = order.iter().position(|c| *c == found).unwrap();
            assert!(found_place <= place, "{}", word);
        }
    }
    assert_eq!(classify("username"), Some(Category::Name));
    assert_eq!(classify("fullname"), Some(Category::Name));
    assert_eq!(classify("zip"), Some(Category::Address));
    assert_eq!(classify("postal"), Some(Category::Address));
    assert_eq!(classify("ip"), Some(Category::Internet));
}

#[test]
fn keyword_lists_are_as_documented() {
    assert_eq!(keywords(Category::Name), vec!["name", "fullname", "username"]);
    assert_eq!(keywords(Category::Email), vec!["email"]);
    assert_eq!(
        keywords(Category::Address),
        vec!["address", "street", "city", "state", "country", "zip", "postal"]
    );
    assert_eq!(keywords(Category::Company), vec!["company", "industry", "buzzword", "business"]);
    assert_eq!(keywords(Category::Internet), vec!["domain", "ip", "mac"]);
    assert_eq!(keywords(Category::Payment), vec!["credit", "card", "number"]);
    assert_eq!(keywords(Category::Phone), vec!["phone"]);
    assert_eq!(keywords(Category::Color), vec!["color", "rgb", "hex"]);
    assert_eq!(keywords(Category::Time), vec!["time", "zone"]);
    assert_eq!(keywords(Category::Job), vec!["job", "field", "position", "seniority", "title"]);
    assert_eq!(
        keywords(Category::Lorem),
        vec!["tweet", "text", "post", "comment", "review", "paragraph", "sentence", "word"]
    );
    assert_eq!(
        priority_order(),
        vec![
            Category::Name,
            Category::Email,
            Category::Address,
            Category::Company,
            Category::Internet,
            Category::Payment,
            Category::Phone,
            Category::Color,
            Category::Time,
            Category::Job,
            Category::Lorem,
        ]
    );
}

#[test]
fn matching_ignores_letter_case() {
    assert_eq!(classify("EMAIL"), Some(Category::Email));
    assert_eq!(classify("Customer_EMail_Address"), Some(Category::Email));
    assert_eq!(text_kind("HomeCITY"), TextKind::CityName);
    assert_eq!(text_kind("RGB"), TextKind::RgbColor);
}

#[test]
fn names_of_no_category_get_a_word() {
    assert_eq!(classify("id"), None);
    assert_eq!(classify(""), None);
    assert_eq!(classify("quantity"), None);
    assert_eq!(text_kind("id"), TextKind::Word);
    assert_eq!(text_kind(""), TextKind::Word);
}

#[test]
fn kinds_within_each_category() {
    assert_eq!(text_kind("name"), TextKind::FullName);
    assert_eq!(text_kind("username"), TextKind::FullName);
    assert_eq!(text_kind("email"), TextKind::Email);
    assert_eq!(text_kind("street"), TextKind::StreetName);
    assert_eq!(text_kind("city"), TextKind::CityName);
    assert_eq!(text_kind("state"), TextKind::StateName);
    assert_eq!(text_kind("country"), TextKind::CountryName);
    assert_eq!(text_kind("zip"), TextKind::ZipCode);
    assert_eq!(text_kind("postal"), TextKind::PostCode);
    assert_eq!(text_kind("address"), TextKind::FullAddress);
    assert_eq!(text_kind("street_address"), TextKind::StreetName);
    assert_eq!(text_kind("city_zip"), TextKind::CityName);
    assert_eq!(text_kind("company"), TextKind::CompanyName);
    assert_eq!(text_kind("industry"), TextKind::Industry);
    assert_eq!(text_kind("buzzword"), TextKind::Buzzword);
    assert_eq!(text_kind("business"), TextKind::CompanySuffix);
    assert_eq!(text_kind("domain"), TextKind::DomainSuffix);
    assert_eq!(text_kind("ip"), TextKind::Ipv4);
    assert_eq!(text_kind("mac"), TextKind::MacAddress);
    assert_eq!(text_kind("credit"), TextKind::CreditCardNumber);
    assert_eq!(text_kind("card"), TextKind::CreditCardNumber);
    assert_eq!(text_kind("number"), TextKind::CreditCardNumber);
    assert_eq!(text_kind("phone"), TextKind::PhoneNumber);
    assert_eq!(text_kind("phone_number"), TextKind::CreditCardNumber);
    assert_eq!(text_kind("rgb"), TextKind::RgbColor);
    assert_eq!(text_kind("hex"), TextKind::HexColor);
    assert_eq!(text_kind("color"), TextKind::Color);
    assert_eq!(text_kind("zone"), TextKind::TimeZone);
    assert_eq!(text_kind("timezone"), TextKind::TimeZone);
    assert_eq!(text_kind("time"), TextKind::Word);
    assert_eq!(text_kind("field"), TextKind::JobField);
    assert_eq!(text_kind("position"), TextKind::JobPosition);
    assert_eq!(text_kind("seniority"), TextKind::JobSeniority);
    assert_eq!(text_kind("job"), TextKind::Word);
    assert_eq!(text_kind("title"), TextKind::Word);
    assert_eq!(text_kind("paragraph"), TextKind::Paragraph);
    assert_eq!(text_kind("review"), TextKind::Paragraph);
    assert_eq!(text_kind("post"), TextKind::Paragraph);
    assert_eq!(text_kind("sentence"), TextKind::Sentence);
    assert_eq!(text_kind("tweet"), TextKind::Sentence);
    assert_eq!(text_kind("comment"), TextKind::Sentence);
    assert_eq!(text_kind("text"), TextKind::Word);
    assert_eq!(text_kind("word"), TextKind::Word);
    assert_eq!(text_kind("tweet_review"), TextKind::Paragraph);
}

#[test]
fn address_line_is_put_together_in_order() {
    assert_eq!(
        compose_address("1234", "Main Street", "Suite 5", "Springfield", "12345", "Utopia"),
        "1234 Main Street, Suite 5, Springfield, 12345, Utopia"
    );
    assert_eq!(compose_address("", "", "", "", "", ""), " , , , , ");
}

#[test]
fn made_up_address_starts_with_four_digits() {
    for _ in 0..20 {
        let line = fake_full_address();
        let number: Vec<char> = line.chars().take(4).collect();
        assert_eq!(number.len(), 4);
        assert!(number.iter().all(|c| c.is_ascii_digit()), "{}", line);
        assert_eq!(line.chars().nth(4), Some(' '));
        assert!(line.matches(", ").count() >= 4, "{}", line);
    }
}

#[test]
fn every_kind_gives_some_text() {
    for kind in all_kinds() {
        let text = fake_text(kind);
        assert!(!text.is_empty(), "{:?}", kind);
    }
    assert!(fake_text(TextKind::Email).contains('@'));
    assert!(fake_text(TextKind::Sentence).ends_with('.'));
    assert_eq!(fake_text(TextKind::Ipv4).split('.').count(), 4);
    assert!(fake_text(TextKind::HexColor).starts_with('#'));
    assert!(fake_text(TextKind::RgbColor).starts_with("rgb("));
    let paragraph = fake_text(TextKind::Paragraph);
    let sentences = paragraph.lines().count();
    assert!((3..10).contains(&sentences), "{}", paragraph);
    let sentence = fake_text(TextKind::Sentence);
    let words = sentence.split(' ').count();
    assert!((5..15).contains(&words), "{}", sentence);
}

#[test]
fn as_many_texts_as_rows() {
    assert_eq!(generate_fake_string_data("email", 0).len(), 0);
    assert_eq!(generate_fake_string_data("email", 1).len(), 1);
    let emails = generate_fake_string_data("company_email", 25);
    assert_eq!(emails.len(), 25);
    assert!(emails.iter().all(|e| e.contains('@')));
    let addresses = generate_fake_string_data("home_address", 10);
    assert_eq!(addresses.len(), 10);
    assert!(addresses.iter().all(|a| a.matches(", ").count() >= 4));
}

fn starts_upper(text: &str) -> bool {
    text.chars().next().map_or(false, |c| c.is_ascii_uppercase())
}

fn starts_lower(text: &str) -> bool {
    text.chars().next().map_or(false, |c| c.is_ascii_lowercase())
}

fn is_lower_word(text: &str) -> bool {
    !text.is_empty() && text.chars().all(|c| c.is_ascii_lowercase())
}

fn is_name_and_more(text: &str) -> bool {
    starts_upper(text)
        && text.char_indices().any(|(i, c)| c == ' ' && i > 0 && i + 1 < text.len())
}

fn is_example_email(text: &str) -> bool {
    ["@example.com", "@example.net", "@example.org"]
        .iter()
        .any(|end| text.strip_suffix(end).map_or(false, is_lower_word))
}

fn is_small_number(text: &str, below: u32) -> bool {
    text.parse::<u32>().map_or(false, |n| n < below && n.to_string() == text)
}

fn is_secondary_address(text: &str) -> bool {
    ["Apt. ", "Suit. "].iter().any(|start| {
        text.strip_prefix(start).map_or(false, |n| is_small_number(n, 99) && n != "0")
    })
}

fn is_ipv4(text: &str) -> bool {
    let parts: Vec<&str> = text.split('.').collect();
    parts.len() == 4 && parts.iter().all(|part| is_small_number(part, 256))
}

fn is_mac_address(text: &str) -> bool {
    let chars: Vec<char> = text.chars().collect();
    chars.len() == 17
        && chars.iter().enumerate().all(|(i, c)| {
            if i % 3 == 2 {
                *c == ':'
            } else {
                c.is_ascii_digit() || ('A'..='F').contains(c)
            }
        })
}

fn is_card_number(text: &str) -> bool {
    text.chars().all(|c| c.is_ascii_digit()) && [13, 15, 16].contains(&text.chars().count())
}

fn is_rgb_color(text: &str) -> bool {
    text.strip_prefix("rgb(").and_then(|rest| rest.strip_suffix(')')).map_or(false, |inner| {
        let parts: Vec<&str> = inner.split(", ").collect();
        parts.len() == 3 && parts.iter().all(|part| is_small_number(part, 256))
    })
}

fn is_hex_color(text: &str) -> bool {
    let chars: Vec<char> = text.chars().collect();
    chars.len() == 7
        && chars[0] == '#'
        && chars[1..].iter().all(|c| c.is_ascii_digit() || ('a'..='f').contains(c))
}

fn is_color_lines(text: &str) -> bool {
    text.split_once('\n').map_or(false, |(first, _)| is_hex_color(first))
}

fn fills_format(format: &str, text: &str) -> bool {
    let format: Vec<char> = format.chars().collect();
    let text: Vec<char> = text.chars().collect();
    format.len() == text.len()
        && format.iter().zip(text.iter()).all(|(f, t)| match f {
            '#' => t.is_ascii_digit(),
            '^' => ('1'..='9').contains(t),
            _ => f == t,
        })
}

fn is_phone_number(text: &str) -> bool {
    let formats = [
        "(^##) ###-#### x###",
        "(^##) ###-#### x####",
        "(^##) ###-#### x#####",
        "(^##) ###-####",
        "1-^##-###-#### x###",
        "1-^##-###-#### x####",
        "1-^##-###-#### x#####",
        "1-^##-###-####",
        "^##-###-#### x###",
        "^##-###-#### x####",
        "^##-###-#### x#####",
        "^##-###-####",
        "^##.###.#### x###",
        "^##.###.#### x####",
        "^##.###.#### x#####",
        "^##.###.####",
    ];
    formats.iter().any(|format| fills_format(format, text))
}

fn is_full_address(line: &str) -> bool {
    let parts: Vec<&str> = line.split(", ").collect();
    // A country may hold a comma itself, so the last part may be split further.
    parts.len() >= 5
        && parts[0].split_once(' ').map_or(false, |(number, street)| {
            fills_format("####", number) && is_name_and_more(street)
        })
        && is_secondary_address(parts[1])
        && is_name_and_more(parts[2])
        && ["#####", "####", "###"].iter().any(|f| fills_format(f, parts[3]))
        && starts_upper(parts[4])
}

fn has_shape(kind: TextKind, text: &str) -> bool {
    match kind {
        TextKind::FullName
        | TextKind::StreetName
        | TextKind::CityName
        | TextKind::CompanyName => is_name_and_more(text),
        TextKind::Email => is_example_email(text),
        TextKind::StateName
        | TextKind::CountryName
        | TextKind::Industry
        | TextKind::Buzzword
        | TextKind::TimeZone
        | TextKind::JobField
        | TextKind::JobPosition
        | TextKind::JobSeniority => starts_upper(text),
        TextKind::ZipCode => ["#####", "####", "###"].iter().any(|f| fills_format(f, text)),
        TextKind::PostCode => ["#####", "#####-####"].iter().any(|f| fills_format(f, text)),
        TextKind::FullAddress => is_full_address(text),
        TextKind::CompanySuffix => ["Inc", "and Sons", "LLC", "Group"].contains(&text),
        TextKind::DomainSuffix => {
            ["com", "biz", "info", "name", "net", "org", "io", "co"].contains(&text)
        }
        TextKind::Ipv4 => is_ipv4(text),
        TextKind::MacAddress => is_mac_address(text),
        TextKind::Username => starts_lower(text),
        TextKind::CreditCardNumber => is_card_number(text),
        TextKind::PhoneNumber => is_phone_number(text),
        TextKind::RgbColor => is_rgb_color(text),
        TextKind::HexColor => is_hex_color(text),
        TextKind::Color => is_color_lines(text),
        TextKind::Paragraph | TextKind::Sentence => text.ends_with('.'),
        TextKind::Word => is_lower_word(text),
    }
}

#[test]
fn every_text_has_the_shape_of_its_kind() {
    for kind in all_kinds() {
        for _ in 0..400 {
            let text = fake_text(kind);
            assert!(has_shape(kind, &text), "{:?}: {:?}", kind, text);
        }
    }
}

#[test]
fn shapes_tell_kinds_apart() {
    assert!(!has_shape(TextKind::Email, "0000 , , , , "));
    assert!(!has_shape(TextKind::Word, "0000 , , , , "));
    assert!(!has_shape(TextKind::Sentence, "0000 , , , , "));
    for _ in 0..50 {
        let word = fake_text(TextKind::Word);
        for kind in all_kinds() {
            if kind != TextKind::Word && kind != TextKind::Username && kind != TextKind::DomainSuffix
            {
                assert!(!has_shape(kind, &word), "{:?}: {:?}", kind, word);
            }
        }
    }
}

#[test]
fn texts_of_a_column_have_the_shape_that_its_name_calls_for() {
    let columns = [
        ("company_email", TextKind::Email),
        ("client_ip", TextKind::Ipv4),
        ("mac", TextKind::MacAddress),
        ("zip", TextKind::ZipCode),
        ("postal_code", TextKind::PostCode),
        ("hex", TextKind::HexColor),
        ("rgb", TextKind::RgbColor),
        ("color", TextKind::Color),
        ("phone", TextKind::PhoneNumber),
        ("card_number", TextKind::CreditCardNumber),
        ("tweet", TextKind::Sentence),
        ("review", TextKind::Paragraph),
        ("home_address", TextKind::FullAddress),
        ("business", TextKind::CompanySuffix),
        ("domain", TextKind::DomainSuffix),
        ("full_name", TextKind::FullName),
        ("id", TextKind::Word),
    ];
    for (name, kind) in columns {
        assert_eq!(text_kind(name), kind);
        let data = generate_fake_string_data(name, 40);
        assert_eq!(data.len(), 40);
        assert!(data.iter().all(|text| has_shape(kind, text)), "{}", name);
    }
}
