use tardy::{Quote, Quotes, Row};

#[test]
fn graffiti_with_author() {
    let q = Quote::new(Some("Eleanor".to_string()), "Do it".to_string());
    assert_eq!(q.graffiti(), "'Do it' - Eleanor");
}

#[test]
fn graffiti_without_author() {
    let q = Quote::new(None, "Do it".to_string());
    assert_eq!(q.graffiti(), "'Do it' - Unknown");
}

#[test]
fn catalog_len_and_at() {
    let quotes = Quotes::new(vec![
        Quote::new(None, "a".to_string()),
        Quote::new(Some("b".to_string()), "c".to_string()),
    ]);
    assert_eq!(quotes.len(), 2);
    assert_eq!(quotes.at(1).quote, "c");
    let copy = quotes.clone();
    assert_eq!(copy.len(), 2);
    assert_eq!(copy.at(0).quote, "a");
}

#[test]
fn ten_valid_two_malformed_rows() {
    // A table of 10 valid and 2 malformed rows yields exactly 10 entries and
    // 2 warnings.
    let mut text = String::from("Author,Quote\n");
    for i in 0..5 {
        text.push_str(&format!("A{i},Q{i}\n"));
    }
    text.push_str("bad,row,with extras\n");
    for i in 5..10 {
        text.push_str(&format!("A{i},Q{i}\n"));
    }
    text.push_str("another,bad,row\n");
    let (quotes, warnings) = Quotes::from_text(&text);
    assert_eq!(quotes.len(), 10);
    assert_eq!(warnings, 2);
    assert_eq!(quotes.at(0).quote, "Q0");
    assert_eq!(quotes.at(0).author.as_deref(), Some("A0"));
    assert_eq!(quotes.at(9).quote, "Q9");
}

#[test]
fn quoted_comma_stays_in_one_field() {
    // The reader must really parse the table: a quoted field keeps its comma.
    let text = "Author,Quote\nX,\"later, not now\"\n";
    let (quotes, warnings) = Quotes::from_text(text);
    assert_eq!(warnings, 0);
    assert_eq!(quotes.len(), 1);
    assert_eq!(quotes.at(0).quote, "later, not now");
    assert_eq!(quotes.at(0).author.as_deref(), Some("X"));
}

#[test]
fn empty_author_field_means_unknown() {
    let text = "Author,Quote\n,nameless wisdom\n";
    let (quotes, warnings) = Quotes::from_text(text);
    assert_eq!(warnings, 0);
    assert_eq!(quotes.len(), 1);
    assert_eq!(quotes.at(0).author, None);
    assert_eq!(quotes.at(0).graffiti(), "'nameless wisdom' - Unknown");
}

#[test]
fn missing_quote_column_warns_every_row() {
    let text = "Author,Saying\nA,hello\nB,there\n";
    let (quotes, warnings) = Quotes::from_text(text);
    assert_eq!(quotes.len(), 0);
    assert_eq!(warnings, 2);
}

#[test]
fn from_rows_directly() {
    let header = vec!["Author".to_string(), "Quote".to_string()];
    let rows = vec![
        Row::Fields(vec!["A".to_string(), "Q".to_string()]),
        Row::Botched("refused".to_string()),
        Row::Fields(vec!["short".to_string()]),
    ];
    let (quotes, warnings) = Quotes::from_rows(&header, &rows);
    assert_eq!(quotes.len(), 1);
    assert_eq!(warnings, 2);
    assert_eq!(quotes.at(0).quote, "Q");
    assert_eq!(quotes.at(0).author.as_deref(), Some("A"));
}

#[test]
fn empty_text_yields_empty_catalog() {
    let (quotes, warnings) = Quotes::from_text("");
    assert_eq!(quotes.len(), 0);
    assert_eq!(warnings, 0);
}
