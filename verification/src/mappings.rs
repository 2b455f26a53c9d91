//! Renaming tables: where extra mappings come from, and how inline ones are
//! laid over the tables.
use crate::string_map::{entries, insert_entry, lemma_insert_lookup, lookup, string_map_insert, string_map_new, string_map_pairs};
use crate::text::{join_path, joined_path, ends_with, is_prefix, is_suffix, lemma_split_first_shorter, split_first, starts_with, str_eq, str_split_once};
use linked_hash_map::LinkedHashMap;
use vstd::prelude::*;
use vstd::string::StringExecFns;

verus! {

/// The mod loaders a jar can be remapped for.
#[derive(Debug, Copy, Clone, PartialEq, Eq, Structural)]
pub enum ModLoader {
    Forge,
    NeoForge,
    Fabric,
}

impl ModLoader {
    /// The loader's name.
    pub fn to_string(&self) -> (r: String)
        ensures
            r@ == match *self {
                ModLoader::Forge => "Forge"@,
                ModLoader::NeoForge => "NeoForge"@,
                ModLoader::Fabric => "Fabric"@,
            },
    {
        match self {
            ModLoader::Forge => String::from_str("Forge"),
            ModLoader::NeoForge => String::from_str("NeoForge"),
            ModLoader::Fabric => String::from_str("Fabric"),
        }
    }
}

/// Where the versions of the default mappings come from.
#[derive(Debug, Copy, Clone, PartialEq, Eq, Structural)]
pub enum DeobfMappingsType {
    VersionsJSON,
    Custom,
}

/// A row of a fields or methods mappings table.
pub struct MappingRecord {
    pub searge: String,
    pub name: String,
    pub side: u8,
    pub desc: String,
}

/// A row of a parameters mappings table.
pub struct ParamMappingRecord {
    pub param: String,
    pub name: String,
    pub side: u8,
}

/// Which table a mappings source fills.
#[derive(Debug, Copy, Clone, PartialEq, Eq, Structural)]
pub enum MappingKind {
    Fields,
    Methods,
    Params,
}

/// Where a mappings source is.
#[derive(Debug, Copy, Clone, PartialEq, Eq, Structural)]
pub enum MappingsSourceType {
    LocalFile,
    WebFile,
    Inline,
}

/// A mappings source: what it is, where, and which table it fills.
pub struct MappingsSource {
    pub source_type: MappingsSourceType,
    pub source: String,
    pub kind: MappingKind,
}

/// The name of a source type.
pub open spec fn source_type_name(t: MappingsSourceType) -> Seq<char> {
    match t {
        MappingsSourceType::LocalFile => "LocalFile"@,
        MappingsSourceType::WebFile => "WebFile"@,
        MappingsSourceType::Inline => "Inline"@,
    }
}

/// The name of a table.
pub open spec fn kind_name(k: MappingKind) -> Seq<char> {
    match k {
        MappingKind::Fields => "Fields"@,
        MappingKind::Methods => "Methods"@,
        MappingKind::Params => "Params"@,
    }
}

impl MappingsSource {
    /// A line describing the source; an inline source's text is not shown.
    pub fn to_string(&self) -> (r: String)
        ensures
            r@ == "MappingsSource { source_type: "@ + source_type_name(self.source_type) + ", source: \""@ + (
            if self.source_type == MappingsSourceType::Inline {
                "<passed inline>"@
            } else {
                self.source@
            }) + "\", kind: "@ + kind_name(self.kind) + " }"@,
    {
        let mut r = String::from_str("MappingsSource { source_type: ");
        r.append(
            match self.source_type {
                MappingsSourceType::LocalFile => "LocalFile",
                MappingsSourceType::WebFile => "WebFile",
                MappingsSourceType::Inline => "Inline",
            },
        );
        r.append(", source: \"");
        match self.source_type {
            MappingsSourceType::Inline => r.append("<passed inline>"),
            _ => r.append(self.source.as_str()),
        }
        r.append("\", kind: ");
        r.append(
            match self.kind {
                MappingKind::Fields => "Fields",
                MappingKind::Methods => "Methods",
                MappingKind::Params => "Params",
            },
        );
        r.append(" }");
        r
    }
}

/// The three renaming tables.
pub struct Mappings {
    pub fields: LinkedHashMap<String, String>,
    pub methods: LinkedHashMap<String, String>,
    pub params: LinkedHashMap<String, String>,
}

impl Default for Mappings {
    /// Three empty tables.
    fn default() -> (r: Self)
        ensures
            entries(r.fields).len() == 0,
            entries(r.methods).len() == 0,
            entries(r.params).len() == 0,
    {
        Mappings { fields: string_map_new(), methods: string_map_new(), params: string_map_new() }
    }
}

/// A mappings source that could not be read.
#[derive(Debug, Clone, Copy, PartialEq, Eq, Structural)]
pub struct MappingSourceParseError;

impl MappingSourceParseError {
    /// The message of the error.
    pub fn to_string(&self) -> (r: String)
        ensures
            r@ == "error occurred while parsing mappings source"@,
    {
        String::from_str("error occurred while parsing mappings source")
    }
}

/// The table that a target name selects.
pub open spec fn kind_of(target: Seq<char>) -> Option<MappingKind> {
    if target == "fields"@ {
        Some(MappingKind::Fields)
    } else if target == "methods"@ {
        Some(MappingKind::Methods)
    } else if target == "params"@ {
        Some(MappingKind::Params)
    } else {
        None
    }
}

/// Where a source is: on the web when it starts with `http://` or
/// `https://`, in a local file when it starts with `file://` or names a path
/// that exists, inline otherwise.
pub open spec fn source_type_of(source: Seq<char>, path_exists: bool) -> MappingsSourceType {
    if is_prefix("http://"@, source) || is_prefix("https://"@, source) {
        MappingsSourceType::WebFile
    } else if is_prefix("file://"@, source) || path_exists {
        MappingsSourceType::LocalFile
    } else {
        MappingsSourceType::Inline
    }
}

/// Reads a `<target>:<source>` mappings argument. `path_exists` tells whether
/// the text after the first `:` names an existing path. Fails when there is no
/// `:` or the target is not `fields`, `methods` or `params`.
pub fn parse_mappings_source(mappings: &str, path_exists: bool) -> (r: Result<MappingsSource, MappingSourceParseError>)
    ensures
        match split_first(mappings@, ":"@) {
            None => r is Err,
            Some((target, source)) => match kind_of(target) {
                None => r is Err,
                Some(kind) => r matches Ok(s) && s.kind == kind && s.source@ == source && s.source_type
                    == source_type_of(source, path_exists),
            },
        },
{
    proof {
        crate::text::lemma_split_first_some(mappings@, ":"@);
    }
    let (m_kind, f_source) = match str_split_once(mappings, ":") {
        None => return Err(MappingSourceParseError),
        Some(res) => res,
    };
    let kind = if str_eq(m_kind, "fields") {
        MappingKind::Fields
    } else if str_eq(m_kind, "methods") {
        MappingKind::Methods
    } else if str_eq(m_kind, "params") {
        MappingKind::Params
    } else {
        return Err(MappingSourceParseError);
    };
    let source_type = if starts_with(f_source, "http://") || starts_with(f_source, "https://") {
        MappingsSourceType::WebFile
    } else if starts_with(f_source, "file://") || path_exists {
        MappingsSourceType::LocalFile
    } else {
        MappingsSourceType::Inline
    };
    Ok(MappingsSource { source_type, source: String::from_str(f_source), kind })
}

/// The name of the mappings file of a table.
pub fn get_mappings_file_name(m_type: &MappingKind) -> (r: &'static str)
    ensures
        r@ == match *m_type {
            MappingKind::Fields => "fields.csv"@,
            MappingKind::Methods => "methods.csv"@,
            MappingKind::Params => "params.csv"@,
        },
{
    match m_type {
        MappingKind::Fields => "fields.csv",
        MappingKind::Methods => "methods.csv",
        MappingKind::Params => "params.csv",
    }
}

/// The path of the mappings file of a table in the directory `mappings_dir`.
pub fn get_mappings_file_path(mappings_dir: &str, m_type: &MappingKind) -> (r: String)
    ensures
        r@ == joined_path(
            mappings_dir@,
            match *m_type {
                MappingKind::Fields => "fields.csv"@,
                MappingKind::Methods => "methods.csv"@,
                MappingKind::Params => "params.csv"@,
            },
        ),
{
    join_path(mappings_dir, get_mappings_file_name(m_type))
}

/// The `;`-separated segments of an inline source, empty ones included.
pub open spec fn segments(s: Seq<char>) -> Seq<Seq<char>>
    decreases s.len(),
{
    match split_first(s, ";"@) {
        None => seq![s],
        Some((a, rest)) => {
            proof {
                reveal_strlit(";");
                lemma_split_first_shorter(s, ";"@);
            }
            seq![a] + segments(rest)
        },
    }
}

/// The `key=value` pairs of segments, split at the first `=`; a segment
/// without `=` gives none.
pub open spec fn inline_pairs(segs: Seq<Seq<char>>) -> Seq<(Seq<char>, Seq<char>)>
    decreases segs.len(),
{
    if segs.len() == 0 {
        Seq::empty()
    } else {
        match split_first(segs[0], "="@) {
            Some(p) => seq![p] + inline_pairs(segs.drop_first()),
            None => inline_pairs(segs.drop_first()),
        }
    }
}

/// The entries after inserting the pairs one after another.
pub open spec fn insert_all(es: Seq<(Seq<char>, Seq<char>)>, pairs: Seq<(Seq<char>, Seq<char>)>) -> Seq<(Seq<char>, Seq<char>)>
    decreases pairs.len(),
{
    if pairs.len() == 0 {
        es
    } else {
        insert_all(insert_entry(es, pairs[0].0, pairs[0].1), pairs.drop_first())
    }
}

/// Inserts the `key=value` pairs of an inline source into `table`, in order.
pub fn merge_inline(source: &str, table: &mut LinkedHashMap<String, String>)
    ensures
        entries(*final(table)) == insert_all(entries(*old(table)), inline_pairs(segments(source@))),
{
    let ghost goal = insert_all(entries(*old(table)), inline_pairs(segments(source@)));
    let mut rest: &str = source;
    loop
        invariant
            insert_all(entries(*table), inline_pairs(segments(rest@))) == goal,
            goal == insert_all(entries(*old(table)), inline_pairs(segments(source@))),
        decreases rest@.len(),
    {
        let ghost es = entries(*table);
        match str_split_once(rest, ";") {
            None => {
                proof {
                    reveal_strlit(";");
                    crate::text::lemma_split_first_some(rest@, ";"@);
                    let segs = seq![rest@];
                    assert(segments(rest@) == segs);
                    assert(segs.drop_first() =~= Seq::<Seq<char>>::empty());
                    assert(inline_pairs(Seq::<Seq<char>>::empty()) == Seq::<(Seq<char>, Seq<char>)>::empty());
                    let ps = inline_pairs(segs);
                    match split_first(rest@, "="@) {
                        Some(p) => {
                            assert(ps == seq![p] + inline_pairs(segs.drop_first()));
                            assert(ps =~= seq![p]);
                            assert(ps.drop_first() =~= Seq::<(Seq<char>, Seq<char>)>::empty());
                            assert(insert_all(es, ps) == insert_all(insert_entry(es, p.0, p.1), ps.drop_first()));
                            assert(insert_all(insert_entry(es, p.0, p.1), Seq::<(Seq<char>, Seq<char>)>::empty())
                                == insert_entry(es, p.0, p.1));
                            assert(insert_all(es, ps) == insert_entry(es, p.0, p.1));
                        },
                        None => {
                            assert(ps =~= Seq::<(Seq<char>, Seq<char>)>::empty());
                            assert(insert_all(es, Seq::<(Seq<char>, Seq<char>)>::empty()) == es);
                        },
                    }
                }
                insert_pair_of(rest, table);
                return;
            },
            Some((a, b)) => {
                proof {
                    reveal_strlit(";");
                    lemma_split_first_shorter(rest@, ";"@);
                    assert(segments(rest@) == seq![a@] + segments(b@));
                    assert((seq![a@] + segments(b@)).drop_first() =~= segments(b@));
                    assert((seq![a@] + segments(b@))[0] == a@);
                    let ps = inline_pairs(seq![a@] + segments(b@));
                    if split_first(a@, "="@) is Some {
                        assert((seq![split_first(a@, "="@).unwrap()] + inline_pairs(segments(b@))).drop_first()
                            =~= inline_pairs(segments(b@)));
                    }
                }
                insert_pair_of(a, table);
                rest = b;
            },
        }
    }
}

/// Inserts the pair of one segment, if it has `=`.
fn insert_pair_of(segment: &str, table: &mut LinkedHashMap<String, String>)
    ensures
        entries(*final(table)) == match split_first(segment@, "="@) {
            Some(p) => insert_entry(entries(*old(table)), p.0, p.1),
            None => entries(*old(table)),
        },
{
    match str_split_once(segment, "=") {
        None => {
            proof {
                crate::text::lemma_split_first_some(segment@, "="@);
            }
        },
        Some((k, v)) => {
            string_map_insert(table, String::from_str(k), String::from_str(v));
        },
    }
}

/// Whether the three tables hold the same entries.
pub open spec fn unchanged(a: Mappings, b: Mappings) -> bool {
    &&& entries(b.fields) == entries(a.fields)
    &&& entries(b.methods) == entries(a.methods)
    &&& entries(b.params) == entries(a.params)
}

/// Reads one mappings argument and, when its source is inline, lays its pairs
/// over the table it targets; the other tables, and every table for other
/// sources, stay as they are. What is read is given back, so that sources in
/// files can be loaded by the caller.
pub fn merge_mapping_source(mapping_source: &str, path_exists: bool, mappings: &mut Mappings) -> (r: Result<
    MappingsSource,
    MappingSourceParseError,
>)
    ensures
        match split_first(mapping_source@, ":"@) {
            None => r is Err,
            Some((target, source)) => match kind_of(target) {
                None => r is Err,
                Some(kind) => r matches Ok(s) && s.kind == kind && s.source@ == source && s.source_type
                    == source_type_of(source, path_exists),
            },
        },
        match r {
            Ok(s) => if s.source_type == MappingsSourceType::Inline {
                &&& entries(final(mappings).fields) == if s.kind == MappingKind::Fields {
                    insert_all(entries(old(mappings).fields), inline_pairs(segments(s.source@)))
                } else {
                    entries(old(mappings).fields)
                }
                &&& entries(final(mappings).methods) == if s.kind == MappingKind::Methods {
                    insert_all(entries(old(mappings).methods), inline_pairs(segments(s.source@)))
                } else {
                    entries(old(mappings).methods)
                }
                &&& entries(final(mappings).params) == if s.kind == MappingKind::Params {
                    insert_all(entries(old(mappings).params), inline_pairs(segments(s.source@)))
                } else {
                    entries(old(mappings).params)
                }
            } else {
                unchanged(*old(mappings), *final(mappings))
            },
            Err(_) => unchanged(*old(mappings), *final(mappings)),
        },
{
    let r = parse_mappings_source(mapping_source, path_exists);
    match &r {
        Ok(source) => {
            if source.source_type == MappingsSourceType::Inline {
                match source.kind {
                    MappingKind::Fields => merge_inline(source.source.as_str(), &mut mappings.fields),
                    MappingKind::Methods => merge_inline(source.source.as_str(), &mut mappings.methods),
                    MappingKind::Params => merge_inline(source.source.as_str(), &mut mappings.params),
                }
            }
        },
        Err(_) => {},
    }
    r
}

/// Inserts `pairs` into `table` one after another.
pub fn insert_pairs(table: &mut LinkedHashMap<String, String>, pairs: &Vec<(String, String)>)
    ensures
        entries(*final(table)) == insert_all(entries(*old(table)), pairs@.map_values(|p: (String, String)| (p.0@, p.1@))),
{
    let ghost ps = pairs@.map_values(|p: (String, String)| (p.0@, p.1@));
    let ghost goal = insert_all(entries(*old(table)), ps);
    let mut i: usize = 0;
    assert(ps.subrange(0, ps.len() as int) =~= ps);
    while i < pairs.len()
        invariant
            i <= pairs@.len(),
            ps == pairs@.map_values(|p: (String, String)| (p.0@, p.1@)),
            insert_all(entries(*table), ps.subrange(i as int, ps.len() as int)) == goal,
            goal == insert_all(entries(*old(table)), ps),
        decreases pairs@.len() - i,
    {
        let k = pairs[i].0.clone();
        let v = pairs[i].1.clone();
        proof {
            let rest = ps.subrange(i as int, ps.len() as int);
            assert(rest.drop_first() =~= ps.subrange(i + 1, ps.len() as int));
            assert(rest[0] == (k@, v@));
        }
        string_map_insert(table, k, v);
        i = i + 1;
    }
}

/// The value of the last pair with key `k`, if any.
pub open spec fn last_value(pairs: Seq<(Seq<char>, Seq<char>)>, k: Seq<char>) -> Option<Seq<char>>
    decreases pairs.len(),
{
    if pairs.len() == 0 {
        None
    } else {
        match last_value(pairs.drop_first(), k) {
            Some(v) => Some(v),
            None => if pairs[0].0 == k { Some(pairs[0].1) } else { None },
        }
    }
}

/// After pairs are laid over a table, a key gives the value of the last pair
/// with that key, and the value it had before when no pair has it.
pub proof fn lemma_insert_all_lookup(es: Seq<(Seq<char>, Seq<char>)>, pairs: Seq<(Seq<char>, Seq<char>)>, k: Seq<char>)
    ensures
        lookup(insert_all(es, pairs), k) == match last_value(pairs, k) {
            Some(v) => Some(v),
            None => lookup(es, k),
        },
    decreases pairs.len(),
{
    if pairs.len() > 0 {
        lemma_insert_all_lookup(insert_entry(es, pairs[0].0, pairs[0].1), pairs.drop_first(), k);
        lemma_insert_lookup(es, pairs[0].0, pairs[0].1, k);
    }
}

/// One table holding the field, method and parameter renamings, laid over
/// each other in that order.
pub fn combine_mappings(mappings: &Mappings) -> (r: LinkedHashMap<String, String>)
    ensures
        entries(r) == insert_all(
            insert_all(insert_all(Seq::empty(), entries(mappings.fields)), entries(mappings.methods)),
            entries(mappings.params),
        ),
{
    let mut common = string_map_new();
    let fields = string_map_pairs(&mappings.fields);
    insert_pairs(&mut common, &fields);
    let methods = string_map_pairs(&mappings.methods);
    insert_pairs(&mut common, &methods);
    let params = string_map_pairs(&mappings.params);
    insert_pairs(&mut common, &params);
    common
}

/// What a remapping run does with an entry of a jar.
#[derive(Debug, Copy, Clone, PartialEq, Eq, Structural)]
pub enum EntryAction {
    /// A class file: read it, rename, write it.
    Remap,
    /// Another file that is kept: copied as it is.
    Copy,
    /// Left out of the output.
    Skip,
}

/// The action for a jar entry: class files are remapped; other files are
/// copied unless resources are stripped, in which case only the manifest (an
/// entry whose last path component is `MANIFEST.MF`, as `META-INF/MANIFEST.MF`)
/// and access transformers (`*_at.cfg`) are kept; directories are left out.
pub open spec fn entry_action_of(name: Seq<char>, is_file: bool, strip_resources: bool) -> EntryAction {
    if is_suffix(".class"@, name) {
        EntryAction::Remap
    } else if is_file && (!strip_resources || name == "MANIFEST.MF"@ || is_suffix("/MANIFEST.MF"@, name)
        || is_suffix("_at.cfg"@, name)) {
        EntryAction::Copy
    } else {
        EntryAction::Skip
    }
}

/// What to do with the jar entry `filename`.
pub fn entry_action(filename: &str, is_file: bool, strip_resources: bool) -> (r: EntryAction)
    ensures
        r == entry_action_of(filename@, is_file, strip_resources),
{
    if ends_with(filename, ".class") {
        EntryAction::Remap
    } else if is_file && (!strip_resources || str_eq(filename, "MANIFEST.MF") || ends_with(filename, "/MANIFEST.MF")
        || ends_with(filename, "_at.cfg")) {
        EntryAction::Copy
    } else {
        EntryAction::Skip
    }
}

} // verus!
