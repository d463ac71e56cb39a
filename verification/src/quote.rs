//! The quote catalog: a read-only collection of sayings loaded once from a
//! comma-separated table and cloned to each worker.
//!
//! The table's first row is a header; the column named `Quote` carries the
//! saying and the optional column named `Author` its attribution. A malformed
//! row costs one warning and is skipped; it never stops construction.
use vstd::prelude::*;
use vstd::string::StringExecFns;

verus! {

/// One saying and its (possibly unknown) author.
#[derive(Debug)]
pub struct Quote {
    /// The attributed author; `None` when the attribution is unknown.
    pub author: Option<String>,
    /// The saying itself.
    pub quote: String,
}

/// The pair of character sequences a quote is made of: its author, if any,
/// and its text.
pub open spec fn quote_rep(q: Quote) -> (Option<Seq<char>>, Seq<char>) {
    (q.author.deep_view(), q.quote@)
}

/// The representations of a sequence of quotes, in order.
pub open spec fn quotes_rep(qs: Seq<Quote>) -> Seq<(Option<Seq<char>>, Seq<char>)> {
    qs.map_values(|q: Quote| quote_rep(q))
}

impl Quote {
    /// Builds a quote from its parts.
    pub fn new(author: Option<String>, quote: String) -> (r: Self)
        ensures
            r == (Quote { author, quote }),
    {
        Quote { author, quote }
    }

    /// The display form of a quote: the saying in single quotes, a dash, then
    /// the author, with `Unknown` standing in for a missing attribution.
    pub open spec fn graffiti_rep(self) -> Seq<char> {
        "'"@ + self.quote@ + "' - "@ + match self.author {
            Some(a) => a@,
            None => "Unknown"@,
        }
    }

    /// Formats the quote for display, naming the author `Unknown` when the
    /// attribution is missing.
    pub fn graffiti(&self) -> (r: String)
        ensures
            r@ == self.graffiti_rep(),
    {
        let mut s = String::from_str("'");
        s.append(self.quote.as_str());
        s.append("' - ");
        match &self.author {
            Some(a) => s.append(a.as_str()),
            None => s.append("Unknown"),
        }
        s
    }
}

impl Clone for Quote {
    /// A clone keeps both parts of the quote.
    fn clone(&self) -> (r: Self)
        ensures
            r == *self,
    {
        let author = match &self.author {
            Some(a) => Some(a.clone()),
            None => None,
        };
        Quote { author, quote: self.quote.clone() }
    }
}

/// The read-only catalog of quotes.
#[derive(Debug)]
pub struct Quotes(pub Vec<Quote>);

impl View for Quotes {
    type V = Seq<Quote>;

    open spec fn view(&self) -> Seq<Quote> {
        self.0@
    }
}

impl Clone for Quotes {
    /// A clone holds the same quotes in the same order, so every worker reads
    /// the catalog the supervisor was built with.
    fn clone(&self) -> (r: Self)
        ensures
            r@ == self@,
    {
        let v = self.0.clone();
        proof {
            assert forall|i: int| 0 <= i < self.0@.len() implies v@[i] == self.0@[i] by {
                assert(cloned::<Quote>(self.0@[i], v@[i]));
            }
            assert(v@ =~= self.0@);
        }
        Quotes(v)
    }
}

impl Quotes {
    /// Wraps a vector of quotes as a catalog.
    pub fn new(quotes: Vec<Quote>) -> (r: Self)
        ensures
            r@ == quotes@,
    {
        Quotes(quotes)
    }

    /// The number of quotes in the catalog.
    pub fn len(&self) -> (n: usize)
        ensures
            n == self@.len(),
    {
        self.0.len()
    }

    /// The quote at a given position.
    pub fn at(&self, i: usize) -> (q: &Quote)
        requires
            i < self@.len(),
        ensures
            *q == self@[i as int],
    {
        &self.0[i]
    }
}

/// One row of the tabular source, as the reader saw it.
#[derive(Debug)]
pub enum Row {
    /// A row the reader parsed: its fields, in file order.
    Fields(Vec<String>),
    /// A row the reader refused, with the reader's message.
    Botched(String),
}

/// The character sequences behind a row: the fields of a parsed row, or the
/// message of a refused one.
pub open spec fn row_rep(r: Row) -> Result<Seq<Seq<char>>, Seq<char>> {
    match r {
        Row::Fields(f) => Ok(f.deep_view()),
        Row::Botched(e) => Err(e@),
    }
}

/// The representations of a sequence of rows, in order.
pub open spec fn rows_rep(rs: Seq<Row>) -> Seq<Result<Seq<Seq<char>>, Seq<char>>> {
    rs.map_values(|r: Row| row_rep(r))
}

/// The header that the comma-separated reader yields for the given text: the
/// fields of its first row.
pub uninterp spec fn header_of(text: Seq<char>) -> Seq<Seq<char>>;

/// The rows after the header that the comma-separated reader yields for the
/// given text: each one its fields, or the reader's message where it refused
/// the row.
pub uninterp spec fn table_rows_of(text: Seq<char>) -> Seq<Result<Seq<Seq<char>>, Seq<char>>>;

/// Relies on csv::Reader: reads the text as comma-separated rows, the first
/// row being the header, and yields each later row's fields — or the reader's
/// error for a row it refuses, such as one whose field count differs from the
/// header's. Both results depend on the text alone.
#[verifier::external_body]
fn parse_table(text: &str) -> (parts: (Vec<String>, Vec<Row>))
    ensures
        parts.0.deep_view() == header_of(text@),
        rows_rep(parts.1@) == table_rows_of(text@),
{
    let mut rdr = csv::Reader::from_reader(text.as_bytes());
    let header = match rdr.headers() {
        Ok(h) => h.iter().map(|f| f.to_string()).collect(),
        Err(_) => Vec::new(),
    };
    let rows = rdr
        .records()
        .map(|r| match r {
            Ok(rec) => Row::Fields(rec.iter().map(|f| f.to_string()).collect()),
            Err(e) => Row::Botched(e.to_string()),
        })
        .collect();
    (header, rows)
}

/// No column of `header` before position `j` is named `label`.
pub open spec fn no_col_before(header: Seq<Seq<char>>, label: Seq<char>, j: int) -> bool {
    forall|k: int| 0 <= k < j ==> header[k] != label
}

/// The position of the first column of `header` named `label`, if any.
pub open spec fn col_of(header: Seq<Seq<char>>, label: Seq<char>) -> Option<int> {
    if exists|i: int|
        0 <= i < header.len() && header[i] == label && no_col_before(header, label, i) {
        Some(
            choose|i: int|
                0 <= i < header.len() && header[i] == label && no_col_before(header, label, i),
        )
    } else {
        None
    }
}

/// Scans the header for the first column with the given name.
fn find_col(header: &Vec<String>, label: &String) -> (r: Option<usize>)
    ensures
        col_of(header.deep_view(), label@) == match r {
            Some(i) => Some(i as int),
            None => None::<int>,
        },
{
    let ghost hd = header.deep_view();
    let mut j: usize = 0;
    while j < header.len()
        invariant
            j <= header@.len(),
            hd == header.deep_view(),
            no_col_before(hd, label@, j as int),
        decreases header@.len() - j,
    {
        if header[j] == *label {
            proof {
                assert(hd[j as int] == label@);
                let i = choose|i: int|
                    0 <= i < hd.len() && hd[i] == label@ && no_col_before(hd, label@, i);
                if i < j {
                    assert(hd[i] != label@);
                } else if i > j {
                    assert(hd[j as int] != label@);
                }
                assert(col_of(hd, label@) == Some(j as int));
            }
            return Some(j);
        }
        proof {
            assert(hd[j as int] != label@);
        }
        j += 1;
    }
    proof {
        if exists|i: int| 0 <= i < hd.len() && hd[i] == label@ && no_col_before(hd, label@, i) {
            let i = choose|i: int|
                0 <= i < hd.len() && hd[i] == label@ && no_col_before(hd, label@, i);
            assert(hd[i] != label@);
        }
    }
    None
}

/// The catalog entry a row yields, given the author and quote column
/// positions: a parsed row with a quote field becomes an entry whose author is
/// the author field when that column exists, is present and is non-empty; any
/// other row yields nothing.
pub open spec fn entry_of(
    row: Result<Seq<Seq<char>>, Seq<char>>,
    acol: Option<int>,
    qcol: Option<int>,
) -> Option<(Option<Seq<char>>, Seq<char>)> {
    match row {
        Err(_) => None,
        Ok(fields) => match qcol {
            None => None,
            Some(q) => if 0 <= q < fields.len() {
                Some((entry_author(fields, acol), fields[q]))
            } else {
                None
            },
        },
    }
}

/// The author a parsed row attributes, if its author field exists and is
/// non-empty.
pub open spec fn entry_author(fields: Seq<Seq<char>>, acol: Option<int>) -> Option<Seq<char>> {
    match acol {
        Some(a) => if 0 <= a < fields.len() && fields[a].len() > 0 {
            Some(fields[a])
        } else {
            None
        },
        None => None,
    }
}

/// The catalog entries a sequence of rows yields, in row order.
pub open spec fn entries_of(
    rows: Seq<Result<Seq<Seq<char>>, Seq<char>>>,
    acol: Option<int>,
    qcol: Option<int>,
) -> Seq<(Option<Seq<char>>, Seq<char>)>
    decreases rows.len(),
{
    if rows.len() == 0 {
        Seq::empty()
    } else {
        let rest = entries_of(rows.drop_last(), acol, qcol);
        match entry_of(rows.last(), acol, qcol) {
            Some(e) => rest.push(e),
            None => rest,
        }
    }
}

/// The number of warnings a sequence of rows costs: one for each row that
/// yields no catalog entry.
pub open spec fn warnings_of(
    rows: Seq<Result<Seq<Seq<char>>, Seq<char>>>,
    acol: Option<int>,
    qcol: Option<int>,
) -> nat
    decreases rows.len(),
{
    if rows.len() == 0 {
        0
    } else {
        warnings_of(rows.drop_last(), acol, qcol) + if entry_of(
            rows.last(),
            acol,
            qcol,
        ) is Some {
            0nat
        } else {
            1nat
        }
    }
}

/// Catalog tolerance: every row becomes either a catalog entry or a warning,
/// so a table with v well-formed and m malformed rows yields exactly v entries
/// and m warnings, and a malformed row never stops construction.
pub proof fn lemma_catalog_tolerance(
    rows: Seq<Result<Seq<Seq<char>>, Seq<char>>>,
    acol: Option<int>,
    qcol: Option<int>,
)
    ensures
        entries_of(rows, acol, qcol).len() + warnings_of(rows, acol, qcol) == rows.len(),
    decreases rows.len(),
{
    if rows.len() > 0 {
        lemma_catalog_tolerance(rows.drop_last(), acol, qcol);
    }
}

impl Quotes {
    /// Builds the catalog from a header and the rows below it. Each row
    /// becomes one entry or one warning, per `entries_of` and `warnings_of`
    /// over the first columns named `Author` and `Quote`.
    pub fn from_rows(header: &Vec<String>, rows: &Vec<Row>) -> (r: (Quotes, usize))
        ensures
            quotes_rep(r.0@) == entries_of(
                rows_rep(rows@),
                col_of(header.deep_view(), "Author"@),
                col_of(header.deep_view(), "Quote"@),
            ),
            r.1 == warnings_of(
                rows_rep(rows@),
                col_of(header.deep_view(), "Author"@),
                col_of(header.deep_view(), "Quote"@),
            ),
    {
        let author_label = String::from_str("Author");
        let quote_label = String::from_str("Quote");
        let acol = find_col(header, &author_label);
        let qcol = find_col(header, &quote_label);
        let ghost ac = col_of(header.deep_view(), "Author"@);
        let ghost qc = col_of(header.deep_view(), "Quote"@);
        let ghost rep = rows_rep(rows@);
        let mut quotes: Vec<Quote> = Vec::new();
        let mut warnings: usize = 0;
        let mut j: usize = 0;
        while j < rows.len()
            invariant
                j <= rows@.len(),
                rep == rows_rep(rows@),
                ac == col_of(header.deep_view(), "Author"@),
                qc == col_of(header.deep_view(), "Quote"@),
                acol matches Some(i) ==> ac == Some(i as int),
                acol is None ==> ac is None,
                qcol matches Some(i) ==> qc == Some(i as int),
                qcol is None ==> qc is None,
                quotes_rep(quotes@) == entries_of(rep.take(j as int), ac, qc),
                warnings == warnings_of(rep.take(j as int), ac, qc),
                warnings <= j,
            decreases rows@.len() - j,
        {
            proof {
                assert(rep.take(j + 1).drop_last() =~= rep.take(j as int));
                assert(rep.take(j + 1).last() == rep[j as int]);
                assert(rep[j as int] == row_rep(rows@[j as int]));
            }
            match &rows[j] {
                Row::Fields(fields) => {
                    let entry = match qcol {
                        Some(q) => if q < fields.len() {
                            let author = match acol {
                                Some(a) => if a < fields.len() {
                                    let text = &fields[a];
                                    if text.eq(&String::new()) {
                                        proof {
                                            assert(text@ =~= Seq::<char>::empty());
                                        }
                                        None
                                    } else {
                                        proof {
                                            if text@.len() == 0 {
                                                assert(text@ =~= Seq::<char>::empty());
                                            }
                                        }
                                        Some(text.clone())
                                    }
                                } else {
                                    None
                                },
                                None => None,
                            };
                            Some(Quote { author, quote: fields[q].clone() })
                        } else {
                            None
                        },
                        None => None,
                    };
                    proof {
                        assert(row_rep(rows@[j as int]) == Ok::<Seq<Seq<char>>, Seq<char>>(
                            fields.deep_view(),
                        ));
                    }
                    match entry {
                        Some(q) => {
                            quotes.push(q);
                            proof {
                                assert(quotes_rep(quotes@) =~= quotes_rep(
                                    quotes@.drop_last(),
                                ).push(quote_rep(quotes@.last())));
                            }
                        },
                        None => {
                            warnings += 1;
                        },
                    }
                },
                Row::Botched(_) => {
                    warnings += 1;
                },
            }
            j += 1;
        }
        proof {
            assert(rep.take(rows@.len() as int) =~= rep);
        }
        (Quotes(quotes), warnings)
    }

    /// Builds the catalog from the text of a comma-separated table: the first
    /// row is the header, and each later row becomes one entry or one warning.
    /// Returns the catalog and the number of warnings.
    pub fn from_text(text: &str) -> (r: (Quotes, usize))
        ensures
            quotes_rep(r.0@) == entries_of(
                table_rows_of(text@),
                col_of(header_of(text@), "Author"@),
                col_of(header_of(text@), "Quote"@),
            ),
            r.1 == warnings_of(
                table_rows_of(text@),
                col_of(header_of(text@), "Author"@),
                col_of(header_of(text@), "Quote"@),
            ),
    {
        let (header, rows) = parse_table(text);
        Quotes::from_rows(&header, &rows)
    }
}

} // verus!
