//! Extra mappings kept in local files: where the file of a `file://` source
//! is, and the pairs that the mappings CSV it holds gives.
use crate::mappings::MappingsSource;
use crate::text::str_eq;
use vstd::prelude::*;

verus! {

/// The scheme and the path of the URL that `s` is, as `url::Url::parse` reads
/// it; `None` when it is no URL.
pub uninterp spec fn url_scheme_path(s: Seq<char>) -> Option<(Seq<char>, Seq<char>)>;

/// `url::Url::parse`: the parsed URL's scheme and path (`Url::scheme`,
/// `Url::path`), or nothing when the text is no URL. Only that this is what
/// the parser gives for the text is claimed; what the parser accepts and how
/// it normalises the path are left to the url crate.
#[verifier::external_body]
pub(crate) fn parse_url(s: &str) -> (r: Option<(String, String)>)
    ensures
        r matches Some(p) ==> url_scheme_path(s@) == Some((p.0@, p.1@)),
        r is None ==> url_scheme_path(s@) is None,
{
    match url::Url::parse(s) {
        Ok(u) => Some((u.scheme().to_string(), u.path().to_string())),
        Err(_) => None,
    }
}

/// Why a source gives no local file to read.
#[derive(Debug, Clone)]
pub enum LocalPathError {
    /// The source is no URL.
    Unparsable,
    /// The source is a URL of this scheme, not `file`.
    WrongScheme(String),
}

/// The file that a local mappings source names: the path of its URL when the
/// URL's scheme is `file`.
pub fn local_mappings_path(src: &MappingsSource) -> (r: Result<String, LocalPathError>)
    ensures
        match url_scheme_path(src.source@) {
            None => r matches Err(LocalPathError::Unparsable),
            Some((sc, p)) => if sc == "file"@ {
                r matches Ok(q) && q@ == p
            } else {
                r matches Err(LocalPathError::WrongScheme(s)) && s@ == sc
            },
        },
{
    match parse_url(src.source.as_str()) {
        None => Err(LocalPathError::Unparsable),
        Some((scheme, path)) => {
            proof {
                reveal_strlit("file");
            }
            if str_eq(scheme.as_str(), "file") {
                Ok(path)
            } else {
                Err(LocalPathError::WrongScheme(scheme))
            }
        },
    }
}

/// The records of a CSV text after its header row, as a `csv::Reader` with its
/// default settings reads them: the fields of each record, or `None` for a
/// record that the reader refuses (such as one with another number of fields
/// than the header).
pub uninterp spec fn csv_records(s: Seq<char>) -> Seq<Option<Seq<Seq<char>>>>;

/// The texts of a record's fields.
pub open spec fn record_texts(x: Option<Vec<String>>) -> Option<Seq<Seq<char>>> {
    match x {
        Some(fields) => Some(fields@.map_values(|f: String| f@)),
        None => None,
    }
}

/// `csv::Reader::from_reader` over the text's bytes and its `records`: each
/// record's fields as text, or nothing for a record that it refuses. What the
/// reader makes of quotes, line ends, empty lines and the header is left to
/// the csv crate.
#[verifier::external_body]
pub(crate) fn read_csv_records(content: &str) -> (r: Vec<Option<Vec<String>>>)
    ensures
        r@.map_values(|x: Option<Vec<String>>| record_texts(x)) == csv_records(content@),
{
    let mut out = Vec::new();
    for record in csv::Reader::from_reader(content.as_bytes()).records() {
        out.push(match record {
            Ok(fields) => Some(fields.iter().map(|f| f.to_string()).collect()),
            Err(_) => None,
        });
    }
    out
}

/// The pair of one record: its first field renamed to its second (empty when
/// the record has a single field); a record without fields gives none.
pub open spec fn record_pair(fields: Seq<Seq<char>>) -> Option<(Seq<char>, Seq<char>)> {
    if fields.len() == 0 {
        None
    } else if fields.len() == 1 {
        Some((fields[0], Seq::empty()))
    } else {
        Some((fields[0], fields[1]))
    }
}

/// The pairs of the records that were read, in order; refused records give none.
pub open spec fn records_pairs(rs: Seq<Option<Seq<Seq<char>>>>) -> Seq<(Seq<char>, Seq<char>)>
    decreases rs.len(),
{
    if rs.len() == 0 {
        Seq::empty()
    } else {
        let rest = records_pairs(rs.drop_first());
        match rs[0] {
            Some(f) => match record_pair(f) {
                Some(p) => seq![p] + rest,
                None => rest,
            },
            None => rest,
        }
    }
}

/// The pairs of a mappings CSV: after the header, each record maps its first
/// field to its second.
pub open spec fn mappings_csv_pairs(content: Seq<char>) -> Seq<(Seq<char>, Seq<char>)> {
    records_pairs(csv_records(content))
}

/// The views of the pairs.
pub open spec fn pair_texts(v: Seq<(String, String)>) -> Seq<(Seq<char>, Seq<char>)> {
    v.map_values(|p: (String, String)| (p.0@, p.1@))
}

/// Reads the records of a mappings CSV after its header: each record's first
/// field paired with its second.
pub fn parse_mappings_csv(content: &str) -> (r: Vec<(String, String)>)
    ensures
        pair_texts(r@) == mappings_csv_pairs(content@),
{
    let records = read_csv_records(content);
    let ghost rs = records@.map_values(|x: Option<Vec<String>>| record_texts(x));
    let mut out: Vec<(String, String)> = Vec::new();
    let mut i: usize = 0;
    assert(rs.subrange(0, rs.len() as int) =~= rs);
    assert(pair_texts(out@) =~= Seq::<(Seq<char>, Seq<char>)>::empty());
    while i < records.len()
        invariant
            i <= records@.len(),
            rs == records@.map_values(|x: Option<Vec<String>>| record_texts(x)),
            rs == csv_records(content@),
            pair_texts(out@) + records_pairs(rs.subrange(i as int, rs.len() as int)) == records_pairs(rs),
        decreases records@.len() - i,
    {
        let ghost before = pair_texts(out@);
        let ghost tail = rs.subrange(i as int, rs.len() as int);
        assert(tail.drop_first() =~= rs.subrange(i + 1, rs.len() as int));
        assert(tail[0] == record_texts(records@[i as int]));
        match &records[i] {
            Some(fields) => {
                if fields.len() > 0 {
                    let key = fields[0].clone();
                    let value = if fields.len() > 1 {
                        fields[1].clone()
                    } else {
                        let e = String::new();
                        assert(e@ =~= Seq::<char>::empty());
                        e
                    };
                    out.push((key, value));
                    proof {
                        assert(pair_texts(out@) =~= before + seq![(key@, value@)]);
                    }
                }
            },
            None => {},
        }
        proof {
            assert(pair_texts(out@) + records_pairs(rs.subrange(i + 1, rs.len() as int)) =~= records_pairs(rs));
        }
        i = i + 1;
    }
    out
}

} // verus!
