//! Parsing a terminology-exchange document into concepts.
//!
//! A document is a tree of tagged nodes.  Its fixed shape is a `text` node
//! holding a `body`, whose `termEntry` children each describe one concept:
//! an integer `id` attribute and one `langSet` per language, each holding a
//! term group (`ntig`/`termGrp`) with the term text, annotation (`termNote`),
//! `date` and description (`descrip`) children keyed by a `type` attribute.

use vstd::prelude::*;
use vstd::string::StrSliceExecFns;
use vstd::string::StringExecFns;

use crate::text::spec_parse_i32;
use crate::text::parse_i32;
use crate::text::str_eq;
use crate::text::clone_opt_string;

verus! {

/// One language's record of a concept: the term and its metadata, every
/// field optional.
#[derive(Debug, PartialEq)]
pub struct TermLanguageSet {
    pub language: Option<String>,
    pub term: Option<String>,
    pub term_type: Option<String>,
    pub creator_id: Option<String>,
    pub creation_timestamp: Option<i64>,
    pub updater_id: Option<String>,
    pub update_timestamp: Option<i64>,
    pub subject: Option<String>,
    pub source: Option<String>,
    pub user: Option<String>,
    pub attributes: Option<String>,
    pub remark: Option<String>,
    pub url: Option<String>,
    pub context: Option<String>,
    pub definition: Option<String>,
}

/// The mathematical value of a `TermLanguageSet`.
pub struct TermLanguageSetV {
    pub language: Option<Seq<char>>,
    pub term: Option<Seq<char>>,
    pub term_type: Option<Seq<char>>,
    pub creator_id: Option<Seq<char>>,
    pub creation_timestamp: Option<i64>,
    pub updater_id: Option<Seq<char>>,
    pub update_timestamp: Option<i64>,
    pub subject: Option<Seq<char>>,
    pub source: Option<Seq<char>>,
    pub user: Option<Seq<char>>,
    pub attributes: Option<Seq<char>>,
    pub remark: Option<Seq<char>>,
    pub url: Option<Seq<char>>,
    pub context: Option<Seq<char>>,
    pub definition: Option<Seq<char>>,
}

impl View for TermLanguageSet {
    type V = TermLanguageSetV;

    open spec fn view(&self) -> TermLanguageSetV {
        TermLanguageSetV {
            language: self.language.deep_view(),
            term: self.term.deep_view(),
            term_type: self.term_type.deep_view(),
            creator_id: self.creator_id.deep_view(),
            creation_timestamp: self.creation_timestamp,
            updater_id: self.updater_id.deep_view(),
            update_timestamp: self.update_timestamp,
            subject: self.subject.deep_view(),
            source: self.source.deep_view(),
            user: self.user.deep_view(),
            attributes: self.attributes.deep_view(),
            remark: self.remark.deep_view(),
            url: self.url.deep_view(),
            context: self.context.deep_view(),
            definition: self.definition.deep_view(),
        }
    }
}

impl DeepView for TermLanguageSet {
    type V = TermLanguageSetV;

    open spec fn deep_view(&self) -> TermLanguageSetV {
        self.view()
    }
}

/// The record with every field absent.
pub open spec fn empty_term_language_set() -> TermLanguageSetV {
    TermLanguageSetV {
        language: None,
        term: None,
        term_type: None,
        creator_id: None,
        creation_timestamp: None,
        updater_id: None,
        update_timestamp: None,
        subject: None,
        source: None,
        user: None,
        attributes: None,
        remark: None,
        url: None,
        context: None,
        definition: None,
    }
}

impl Default for TermLanguageSet {
    fn default() -> (r: Self)
        ensures
            r@ == empty_term_language_set(),
    {
        TermLanguageSet {
            language: None,
            term: None,
            term_type: None,
            creator_id: None,
            creation_timestamp: None,
            updater_id: None,
            update_timestamp: None,
            subject: None,
            source: None,
            user: None,
            attributes: None,
            remark: None,
            url: None,
            context: None,
            definition: None,
        }
    }
}

/// A copy of a record with the same contents.
pub fn clone_term_language_set(t: &TermLanguageSet) -> (r: TermLanguageSet)
    ensures
        r == *t,
{
    TermLanguageSet {
        language: clone_opt_string(&t.language),
        term: clone_opt_string(&t.term),
        term_type: clone_opt_string(&t.term_type),
        creator_id: clone_opt_string(&t.creator_id),
        creation_timestamp: t.creation_timestamp,
        updater_id: clone_opt_string(&t.updater_id),
        update_timestamp: t.update_timestamp,
        subject: clone_opt_string(&t.subject),
        source: clone_opt_string(&t.source),
        user: clone_opt_string(&t.user),
        attributes: clone_opt_string(&t.attributes),
        remark: clone_opt_string(&t.remark),
        url: clone_opt_string(&t.url),
        context: clone_opt_string(&t.context),
        definition: clone_opt_string(&t.definition),
    }
}

impl Clone for TermLanguageSet {
    fn clone(&self) -> (r: Self)
        ensures
            r == *self,
    {
        clone_term_language_set(self)
    }
}

/// One concept of the source file: its identifier and its language records,
/// in document order.
#[derive(Debug, PartialEq)]
pub struct DictionaryEntry {
    pub id: i32,
    pub language_sets: Vec<TermLanguageSet>,
}

/// The mathematical value of a `DictionaryEntry`.
pub struct DictionaryEntryV {
    pub id: int,
    pub language_sets: Seq<TermLanguageSetV>,
}

impl View for DictionaryEntry {
    type V = DictionaryEntryV;

    open spec fn view(&self) -> DictionaryEntryV {
        DictionaryEntryV { id: self.id as int, language_sets: self.language_sets.deep_view() }
    }
}

impl DeepView for DictionaryEntry {
    type V = DictionaryEntryV;

    open spec fn deep_view(&self) -> DictionaryEntryV {
        self.view()
    }
}

/// The ordered list of concepts parsed from one document.
#[derive(Debug, PartialEq)]
pub struct Dictionary {
    pub entries: Vec<DictionaryEntry>,
}

impl View for Dictionary {
    type V = Seq<DictionaryEntryV>;

    open spec fn view(&self) -> Seq<DictionaryEntryV> {
        self.entries.deep_view()
    }
}

/// A constructor trait for types with an empty starting value.
pub trait New: Sized {
    fn new() -> Self;
}

/// A node of the parsed document tree: tag, attributes, text and children,
/// all in document order.
#[derive(Debug)]
pub struct XmlNode {
    pub tag: String,
    pub attrs: Vec<(String, String)>,
    pub text: String,
    pub children: Vec<XmlNode>,
}

/// Why a document was rejected.
#[derive(Clone, Copy, Debug, PartialEq, Eq, Structural)]
pub enum ParseError {
    /// The document text is not a well-formed document.
    Xml,
    /// The fixed `text`/`body` backbone, or a language set's term group,
    /// is missing.
    Structure,
    /// A concept entry has a missing or non-numeric `id` attribute.
    EntryId,
    /// A language set has no `lang` attribute.
    Language,
    /// An annotation, date or description child has no `type` attribute.
    NoteType,
}

/// The first value among the attribute pairs under the given key.
pub open spec fn attr_in(attrs: Seq<(String, String)>, key: Seq<char>) -> Option<Seq<char>>
    decreases attrs.len(),
{
    if attrs.len() == 0 {
        None
    } else if attrs[0].0@ == key {
        Some(attrs[0].1@)
    } else {
        attr_in(attrs.drop_first(), key)
    }
}

/// The first child with the given tag.
pub open spec fn find_in(children: Seq<XmlNode>, tag: Seq<char>) -> Option<XmlNode>
    decreases children.len(),
{
    if children.len() == 0 {
        None
    } else if children[0].tag@ == tag {
        Some(children[0])
    } else {
        find_in(children.drop_first(), tag)
    }
}

impl XmlNode {
    /// The value of the first attribute with the given key.
    pub fn get_attr(&self, key: &str) -> (r: Option<String>)
        ensures
            r.deep_view() == attr_in(self.attrs@, key@),
    {
        let n = self.attrs.len();
        let mut i: usize = 0;
        proof {
            assert(self.attrs@.skip(0) =~= self.attrs@);
        }
        while i < n
            invariant
                n == self.attrs@.len(),
                i <= n,
                attr_in(self.attrs@, key@) == attr_in(self.attrs@.skip(i as int), key@),
            decreases n - i,
        {
            proof {
                assert(self.attrs@.skip(i as int).drop_first() =~= self.attrs@.skip(i + 1));
                assert(self.attrs@.skip(i as int)[0] == self.attrs@[i as int]);
            }
            if str_eq(self.attrs[i].0.as_str(), key) {
                return Some(self.attrs[i].1.clone());
            }
            i = i + 1;
        }
        None
    }

    /// The first child with the given tag.
    pub fn find<'a>(&'a self, tag: &str) -> (r: Option<&'a XmlNode>)
        ensures
            match r {
                Some(c) => find_in(self.children@, tag@) == Some(*c),
                None => find_in(self.children@, tag@) is None,
            },
    {
        let n = self.children.len();
        let mut i: usize = 0;
        proof {
            assert(self.children@.skip(0) =~= self.children@);
        }
        while i < n
            invariant
                n == self.children@.len(),
                i <= n,
                find_in(self.children@, tag@) == find_in(self.children@.skip(i as int), tag@),
            decreases n - i,
        {
            proof {
                assert(self.children@.skip(i as int).drop_first() =~= self.children@.skip(i + 1));
                assert(self.children@.skip(i as int)[0] == self.children@[i as int]);
            }
            if str_eq(self.children[i].tag.as_str(), tag) {
                return Some(&self.children[i]);
            }
            i = i + 1;
        }
        None
    }
}

/// The document-tree type of the `elementtree` crate, opaque here; values
/// of it only pass from the parse call to the conversion below.
#[verifier::external_type_specification]
#[verifier::external_body]
pub struct ExElement(elementtree::Element);

/// What parsing a document text yields: the node tree when it is well
/// formed, nothing otherwise.
pub uninterp spec fn xml_tree_of(text: Seq<char>) -> Option<XmlNode>;

/// Relies on `elementtree::Element::from_reader`: the tree parsed from the
/// document text, a function of the characters alone; `None` when the text
/// is rejected.
#[verifier::external_body]
pub fn parse_xml_tree(text: &str) -> (r: Option<XmlNode>)
    ensures
        r == xml_tree_of(text@),
{
    match elementtree::Element::from_reader(text.as_bytes()) {
        Ok(root) => Some(element_to_node(&root)),
        Err(_) => None,
    }
}

/// Relies on `elementtree::Element`'s `tag`, `attrs`, `text` and `children`
/// accessors: each is copied into the corresponding field, attributes and
/// children in the order the accessors yield them.
#[verifier::external_body]
fn element_to_node(e: &elementtree::Element) -> XmlNode {
    XmlNode {
        tag: e.tag().name().to_string(),
        attrs: e.attrs().map(|(k, v)| (k.name().to_string(), v.to_string())).collect(),
        text: e.text().to_string(),
        children: e.children().map(element_to_node).collect(),
    }
}

/// What parsing a compact `YYYYMMDDTHHMMSSZ` timestamp yields: seconds since
/// the epoch when the text is a valid timestamp, nothing otherwise.
pub uninterp spec fn compact_epoch_of(s: Seq<char>) -> Option<i64>;

/// Relies on `chrono::NaiveDateTime::parse_from_str` with the compact
/// `%Y%m%dT%H%M%SZ` format and on `and_utc().timestamp()`: the result is a
/// function of the characters alone.
#[verifier::external_body]
pub fn parse_timestamp(date_str: &str) -> (r: Option<i64>)
    ensures
        r == compact_epoch_of(date_str@),
{
    chrono::NaiveDateTime::parse_from_str(date_str, "%Y%m%dT%H%M%SZ")
        .ok()
        .map(|dt| dt.and_utc().timestamp())
}

/// What rendering a compact timestamp readably yields: the text chrono
/// prints for the parsed timestamp, nothing when the text is rejected.
pub uninterp spec fn human_timestamp_of(s: Seq<char>) -> Option<Seq<char>>;

/// Relies on the same `chrono::NaiveDateTime::parse_from_str` call and on
/// `NaiveDateTime`'s display rendering: a function of the characters alone.
#[verifier::external_body]
fn format_parsed_timestamp(date_str: &str) -> (r: Option<String>)
    ensures
        r.deep_view() == human_timestamp_of(date_str@),
{
    chrono::NaiveDateTime::parse_from_str(date_str, "%Y%m%dT%H%M%SZ")
        .ok()
        .map(|dt| dt.to_string())
}

/// A fold over document children, earliest child first; the first error
/// aborts the fold.
pub open spec fn fold_children<A>(
    init: A,
    cs: Seq<XmlNode>,
    f: spec_fn(A, XmlNode) -> Result<A, ParseError>,
) -> Result<A, ParseError>
    decreases cs.len(),
{
    if cs.len() == 0 {
        Ok(init)
    } else {
        match fold_children(init, cs.drop_last(), f) {
            Err(e) => Err(e),
            Ok(a) => f(a, cs.last()),
        }
    }
}

proof fn lemma_fold_children_step<A>(
    init: A,
    cs: Seq<XmlNode>,
    f: spec_fn(A, XmlNode) -> Result<A, ParseError>,
    i: int,
)
    requires
        0 <= i < cs.len(),
    ensures
        fold_children(init, cs.take(i + 1), f) == match fold_children(init, cs.take(i), f) {
            Err(e) => Err::<A, ParseError>(e),
            Ok(a) => f(a, cs[i]),
        },
{
    assert(cs.take(i + 1).drop_last() =~= cs.take(i));
    assert(cs.take(i + 1).last() == cs[i]);
}

proof fn lemma_fold_children_err<A>(
    init: A,
    cs: Seq<XmlNode>,
    f: spec_fn(A, XmlNode) -> Result<A, ParseError>,
    i: int,
)
    requires
        0 <= i <= cs.len(),
        fold_children(init, cs.take(i), f) is Err,
    ensures
        fold_children(init, cs, f) == fold_children(init, cs.take(i), f),
    decreases cs.len() - i,
{
    if i == cs.len() {
        assert(cs.take(i) =~= cs);
    } else {
        lemma_fold_children_step(init, cs, f, i);
        lemma_fold_children_err(init, cs, f, i + 1);
    }
}

/// One annotation applied to a record: the recognized keys set their field
/// to the child's text, unrecognized keys change nothing.
pub open spec fn apply_note(s: TermLanguageSetV, ty: Seq<char>, text: Seq<char>) -> TermLanguageSetV {
    if ty == "termType"@ {
        TermLanguageSetV { term_type: Some(text), ..s }
    } else if ty == "TS_CreateId"@ {
        TermLanguageSetV { creator_id: Some(text), ..s }
    } else if ty == "TS_UpdateId"@ {
        TermLanguageSetV { updater_id: Some(text), ..s }
    } else if ty == "TS_Subject"@ {
        TermLanguageSetV { subject: Some(text), ..s }
    } else if ty == "TS_Source"@ {
        TermLanguageSetV { source: Some(text), ..s }
    } else if ty == "TS_User1"@ {
        TermLanguageSetV { user: Some(text), ..s }
    } else if ty == "TS_Attributes"@ {
        TermLanguageSetV { attributes: Some(text), ..s }
    } else if ty == "TS_Remark"@ {
        TermLanguageSetV { remark: Some(text), ..s }
    } else if ty == "TS_Hyperlink"@ {
        TermLanguageSetV { url: Some(text), ..s }
    } else {
        s
    }
}

/// One step of the annotation pass: `termNote` children must carry a
/// `type` attribute and are applied; other children are skipped.
pub open spec fn note_step(s: TermLanguageSetV, c: XmlNode) -> Result<TermLanguageSetV, ParseError> {
    if c.tag@ != "termNote"@ {
        Ok(s)
    } else {
        match attr_in(c.attrs@, "type"@) {
            None => Err(ParseError::NoteType),
            Some(ty) => Ok(apply_note(s, ty, c.text@)),
        }
    }
}

pub open spec fn note_stepper() -> spec_fn(TermLanguageSetV, XmlNode) -> Result<
    TermLanguageSetV,
    ParseError,
> {
    |s: TermLanguageSetV, c: XmlNode| note_step(s, c)
}

/// One step of the date pass: an `origination` date sets the creation
/// time and a `modification` date the update time, each to whatever the
/// compact timestamp parse yields; other keys are skipped.
pub open spec fn date_step(s: TermLanguageSetV, c: XmlNode) -> Result<TermLanguageSetV, ParseError> {
    if c.tag@ != "date"@ {
        Ok(s)
    } else {
        match attr_in(c.attrs@, "type"@) {
            None => Err(ParseError::NoteType),
            Some(ty) => Ok(
                if ty == "origination"@ {
                    TermLanguageSetV { creation_timestamp: compact_epoch_of(c.text@), ..s }
                } else if ty == "modification"@ {
                    TermLanguageSetV { update_timestamp: compact_epoch_of(c.text@), ..s }
                } else {
                    s
                },
            ),
        }
    }
}

pub open spec fn date_stepper() -> spec_fn(TermLanguageSetV, XmlNode) -> Result<
    TermLanguageSetV,
    ParseError,
> {
    |s: TermLanguageSetV, c: XmlNode| date_step(s, c)
}

/// One step of the description pass: `context` and `definition` children
/// set their field; other keys are skipped.
pub open spec fn descrip_step(s: TermLanguageSetV, c: XmlNode) -> Result<
    TermLanguageSetV,
    ParseError,
> {
    if c.tag@ != "descrip"@ {
        Ok(s)
    } else {
        match attr_in(c.attrs@, "type"@) {
            None => Err(ParseError::NoteType),
            Some(ty) => Ok(
                if ty == "context"@ {
                    TermLanguageSetV { context: Some(c.text@), ..s }
                } else if ty == "definition"@ {
                    TermLanguageSetV { definition: Some(c.text@), ..s }
                } else {
                    s
                },
            ),
        }
    }
}

pub open spec fn descrip_stepper() -> spec_fn(TermLanguageSetV, XmlNode) -> Result<
    TermLanguageSetV,
    ParseError,
> {
    |s: TermLanguageSetV, c: XmlNode| descrip_step(s, c)
}

/// The record a term group starts from: the language recorded, the term
/// text when a `term` child is present, everything else absent.
pub open spec fn term_base(tg: XmlNode, lang: Seq<char>) -> TermLanguageSetV {
    TermLanguageSetV {
        language: Some(lang),
        term: match find_in(tg.children@, "term"@) {
            Some(t) => Some(t.text@),
            None => None,
        },
        ..empty_term_language_set()
    }
}

/// What one language set parses to: its `lang` attribute, its
/// `ntig`/`termGrp` term group, and the three annotation passes over the
/// term group's children.
pub open spec fn spec_langset_of(ls: XmlNode) -> Result<TermLanguageSetV, ParseError> {
    match attr_in(ls.attrs@, "lang"@) {
        None => Err(ParseError::Language),
        Some(lang) => match find_in(ls.children@, "ntig"@) {
            None => Err(ParseError::Structure),
            Some(ntig) => match find_in(ntig.children@, "termGrp"@) {
                None => Err(ParseError::Structure),
                Some(tg) => match fold_children(term_base(tg, lang), tg.children@, note_stepper()) {
                    Err(e) => Err(e),
                    Ok(s1) => match fold_children(s1, tg.children@, date_stepper()) {
                        Err(e) => Err(e),
                        Ok(s2) => fold_children(s2, tg.children@, descrip_stepper()),
                    },
                },
            },
        },
    }
}

/// One step of the language-set pass of a concept entry.
pub open spec fn langset_step(vs: Seq<TermLanguageSetV>, c: XmlNode) -> Result<
    Seq<TermLanguageSetV>,
    ParseError,
> {
    if c.tag@ != "langSet"@ {
        Ok(vs)
    } else {
        match spec_langset_of(c) {
            Err(e) => Err(e),
            Ok(v) => Ok(vs.push(v)),
        }
    }
}

pub open spec fn langset_stepper() -> spec_fn(Seq<TermLanguageSetV>, XmlNode) -> Result<
    Seq<TermLanguageSetV>,
    ParseError,
> {
    |vs: Seq<TermLanguageSetV>, c: XmlNode| langset_step(vs, c)
}

/// What one concept entry parses to: its integer `id` attribute and its
/// language sets in document order.
pub open spec fn spec_entry_of(c: XmlNode) -> Result<DictionaryEntryV, ParseError> {
    match attr_in(c.attrs@, "id"@) {
        None => Err(ParseError::EntryId),
        Some(ids) => match spec_parse_i32(ids) {
            None => Err(ParseError::EntryId),
            Some(id) => match fold_children(
                Seq::<TermLanguageSetV>::empty(),
                c.children@,
                langset_stepper(),
            ) {
                Err(e) => Err(e),
                Ok(ls) => Ok(DictionaryEntryV { id: id as int, language_sets: ls }),
            },
        },
    }
}

/// One step of the entry pass of a document body.
pub open spec fn entry_step(es: Seq<DictionaryEntryV>, c: XmlNode) -> Result<
    Seq<DictionaryEntryV>,
    ParseError,
> {
    if c.tag@ != "termEntry"@ {
        Ok(es)
    } else {
        match spec_entry_of(c) {
            Err(e) => Err(e),
            Ok(ent) => Ok(es.push(ent)),
        }
    }
}

pub open spec fn entry_stepper() -> spec_fn(Seq<DictionaryEntryV>, XmlNode) -> Result<
    Seq<DictionaryEntryV>,
    ParseError,
> {
    |es: Seq<DictionaryEntryV>, c: XmlNode| entry_step(es, c)
}

/// What a document tree parses to: the concept entries of the `text` body,
/// in document order.
pub open spec fn spec_entries_of(root: XmlNode) -> Result<Seq<DictionaryEntryV>, ParseError> {
    match find_in(root.children@, "text"@) {
        None => Err(ParseError::Structure),
        Some(text) => match find_in(text.children@, "body"@) {
            None => Err(ParseError::Structure),
            Some(body) => fold_children(
                Seq::<DictionaryEntryV>::empty(),
                body.children@,
                entry_stepper(),
            ),
        },
    }
}

/// What a document text parses to: the concept entries of its tree, or an
/// error when the text or the tree is rejected.
pub open spec fn spec_dictionary_of(text: Seq<char>) -> Result<Seq<DictionaryEntryV>, ParseError> {
    match xml_tree_of(text) {
        None => Err(ParseError::Xml),
        Some(root) => spec_entries_of(root),
    }
}

/// The readable rendering of a compact timestamp, or `"error"` when the
/// text is rejected.
pub fn timestamp_for_human_readable(date_str: &str) -> (r: String)
    ensures
        r@ == match human_timestamp_of(date_str@) {
            Some(t) => t,
            None => "error"@,
        },
{
    match format_parsed_timestamp(date_str) {
        Some(s) => s,
        None => String::from_str("error"),
    }
}

/// Parsing one language set, exactly as `spec_langset_of` states it.
pub fn parse_langset(ls: &XmlNode) -> (r: Result<TermLanguageSet, ParseError>)
    ensures
        match spec_langset_of(*ls) {
            Ok(v) => r matches Ok(t) && t@ == v,
            Err(e) => r == Err::<TermLanguageSet, ParseError>(e),
        },
{
    let lang = match ls.get_attr("lang") {
        Some(l) => l,
        None => {
            return Err(ParseError::Language);
        },
    };
    let ntig = match ls.find("ntig") {
        Some(n) => n,
        None => {
            return Err(ParseError::Structure);
        },
    };
    let tg = match ntig.find("termGrp") {
        Some(t) => t,
        None => {
            return Err(ParseError::Structure);
        },
    };
    let mut st = TermLanguageSet::default();
    st.language = Some(lang);
    match tg.find("term") {
        Some(t) => {
            st.term = Some(t.text.clone());
        },
        None => {},
    }
    let ghost base = term_base(*tg, st.language.deep_view()->0);
    assert(st@ == base);

    let n = tg.children.len();
    let cs = &tg.children;

    // Annotation pass.
    let mut i: usize = 0;
    proof {
        assert(cs@.take(0) =~= Seq::<XmlNode>::empty());
    }
    while i < n
        invariant
            n == cs@.len(),
            i <= n,
            fold_children(base, cs@.take(i as int), note_stepper()) == Ok::<
                TermLanguageSetV,
                ParseError,
            >(st@),
            spec_langset_of(*ls) == match fold_children(base, cs@, note_stepper()) {
                Err(e) => Err::<TermLanguageSetV, ParseError>(e),
                Ok(s1) => match fold_children(s1, cs@, date_stepper()) {
                    Err(e) => Err(e),
                    Ok(s2) => fold_children(s2, cs@, descrip_stepper()),
                },
            },
        decreases n - i,
    {
        proof {
            lemma_fold_children_step(base, cs@, note_stepper(), i as int);
        }
        let c = &cs[i];
        if str_eq(c.tag.as_str(), "termNote") {
            match c.get_attr("type") {
                None => {
                    proof {
                        lemma_fold_children_err(base, cs@, note_stepper(), i + 1);
                    }
                    return Err(ParseError::NoteType);
                },
                Some(ty) => {
                    if str_eq(ty.as_str(), "termType") {
                        st.term_type = Some(c.text.clone());
                    } else if str_eq(ty.as_str(), "TS_CreateId") {
                        st.creator_id = Some(c.text.clone());
                    } else if str_eq(ty.as_str(), "TS_UpdateId") {
                        st.updater_id = Some(c.text.clone());
                    } else if str_eq(ty.as_str(), "TS_Subject") {
                        st.subject = Some(c.text.clone());
                    } else if str_eq(ty.as_str(), "TS_Source") {
                        st.source = Some(c.text.clone());
                    } else if str_eq(ty.as_str(), "TS_User1") {
                        st.user = Some(c.text.clone());
                    } else if str_eq(ty.as_str(), "TS_Attributes") {
                        st.attributes = Some(c.text.clone());
                    } else if str_eq(ty.as_str(), "TS_Remark") {
                        st.remark = Some(c.text.clone());
                    } else if str_eq(ty.as_str(), "TS_Hyperlink") {
                        st.url = Some(c.text.clone());
                    }
                },
            }
        }
        i = i + 1;
    }
    proof {
        assert(cs@.take(n as int) =~= cs@);
    }
    let ghost s1 = st@;

    // Date pass.
    let mut i: usize = 0;
    proof {
        assert(cs@.take(0) =~= Seq::<XmlNode>::empty());
    }
    while i < n
        invariant
            n == cs@.len(),
            i <= n,
            fold_children(s1, cs@.take(i as int), date_stepper()) == Ok::<
                TermLanguageSetV,
                ParseError,
            >(st@),
            spec_langset_of(*ls) == match fold_children(s1, cs@, date_stepper()) {
                Err(e) => Err::<TermLanguageSetV, ParseError>(e),
                Ok(s2) => fold_children(s2, cs@, descrip_stepper()),
            },
        decreases n - i,
    {
        proof {
            lemma_fold_children_step(s1, cs@, date_stepper(), i as int);
        }
        let c = &cs[i];
        if str_eq(c.tag.as_str(), "date") {
            match c.get_attr("type") {
                None => {
                    proof {
                        lemma_fold_children_err(s1, cs@, date_stepper(), i + 1);
                    }
                    return Err(ParseError::NoteType);
                },
                Some(ty) => {
                    if str_eq(ty.as_str(), "origination") {
                        st.creation_timestamp = parse_timestamp(c.text.as_str());
                    } else if str_eq(ty.as_str(), "modification") {
                        st.update_timestamp = parse_timestamp(c.text.as_str());
                    }
                },
            }
        }
        i = i + 1;
    }
    proof {
        assert(cs@.take(n as int) =~= cs@);
    }
    let ghost s2 = st@;

    // Description pass.
    let mut i: usize = 0;
    proof {
        assert(cs@.take(0) =~= Seq::<XmlNode>::empty());
    }
    while i < n
        invariant
            n == cs@.len(),
            i <= n,
            fold_children(s2, cs@.take(i as int), descrip_stepper()) == Ok::<
                TermLanguageSetV,
                ParseError,
            >(st@),
            spec_langset_of(*ls) == fold_children(s2, cs@, descrip_stepper()),
        decreases n - i,
    {
        proof {
            lemma_fold_children_step(s2, cs@, descrip_stepper(), i as int);
        }
        let c = &cs[i];
        if str_eq(c.tag.as_str(), "descrip") {
            match c.get_attr("type") {
                None => {
                    proof {
                        lemma_fold_children_err(s2, cs@, descrip_stepper(), i + 1);
                    }
                    return Err(ParseError::NoteType);
                },
                Some(ty) => {
                    if str_eq(ty.as_str(), "context") {
                        st.context = Some(c.text.clone());
                    } else if str_eq(ty.as_str(), "definition") {
                        st.definition = Some(c.text.clone());
                    }
                },
            }
        }
        i = i + 1;
    }
    proof {
        assert(cs@.take(n as int) =~= cs@);
    }
    Ok(st)
}

/// Parsing one concept entry, exactly as `spec_entry_of` states it.
pub fn parse_entry(c: &XmlNode) -> (r: Result<DictionaryEntry, ParseError>)
    ensures
        match spec_entry_of(*c) {
            Ok(v) => r matches Ok(ent) && ent@ == v,
            Err(e) => r == Err::<DictionaryEntry, ParseError>(e),
        },
{
    let id_str = match c.get_attr("id") {
        Some(s) => s,
        None => {
            return Err(ParseError::EntryId);
        },
    };
    let id = match parse_i32(id_str.as_str()) {
        Some(v) => v,
        None => {
            return Err(ParseError::EntryId);
        },
    };
    let mut sets: Vec<TermLanguageSet> = Vec::new();
    let n = c.children.len();
    let cs = &c.children;
    let mut i: usize = 0;
    proof {
        assert(cs@.take(0) =~= Seq::<XmlNode>::empty());
        assert(sets.deep_view() =~= Seq::<TermLanguageSetV>::empty());
    }
    while i < n
        invariant
            n == cs@.len(),
            i <= n,
            fold_children(Seq::<TermLanguageSetV>::empty(), cs@.take(i as int), langset_stepper())
                == Ok::<Seq<TermLanguageSetV>, ParseError>(sets.deep_view()),
            spec_entry_of(*c) == match fold_children(
                Seq::<TermLanguageSetV>::empty(),
                cs@,
                langset_stepper(),
            ) {
                Err(e) => Err::<DictionaryEntryV, ParseError>(e),
                Ok(ls) => Ok(DictionaryEntryV { id: id as int, language_sets: ls }),
            },
        decreases n - i,
    {
        proof {
            lemma_fold_children_step(
                Seq::<TermLanguageSetV>::empty(),
                cs@,
                langset_stepper(),
                i as int,
            );
        }
        let child = &cs[i];
        if str_eq(child.tag.as_str(), "langSet") {
            match parse_langset(child) {
                Ok(t) => {
                    let ghost before = sets.deep_view();
                    sets.push(t);
                    proof {
                        assert(sets.deep_view() =~= before.push(t@));
                    }
                },
                Err(e) => {
                    proof {
                        lemma_fold_children_err(
                            Seq::<TermLanguageSetV>::empty(),
                            cs@,
                            langset_stepper(),
                            i + 1,
                        );
                    }
                    return Err(e);
                },
            }
        }
        i = i + 1;
    }
    proof {
        assert(cs@.take(n as int) =~= cs@);
    }
    Ok(DictionaryEntry { id, language_sets: sets })
}

/// Parsing the concept entries under a document tree, exactly as
/// `spec_entries_of` states it.
pub fn parse_entries(root: &XmlNode) -> (r: Result<Vec<DictionaryEntry>, ParseError>)
    ensures
        match spec_entries_of(*root) {
            Ok(es) => r matches Ok(v) && v.deep_view() == es,
            Err(e) => r == Err::<Vec<DictionaryEntry>, ParseError>(e),
        },
{
    let text = match root.find("text") {
        Some(t) => t,
        None => {
            return Err(ParseError::Structure);
        },
    };
    let body = match text.find("body") {
        Some(b) => b,
        None => {
            return Err(ParseError::Structure);
        },
    };
    let mut entries: Vec<DictionaryEntry> = Vec::new();
    let n = body.children.len();
    let cs = &body.children;
    let mut i: usize = 0;
    proof {
        assert(cs@.take(0) =~= Seq::<XmlNode>::empty());
        assert(entries.deep_view() =~= Seq::<DictionaryEntryV>::empty());
    }
    while i < n
        invariant
            n == cs@.len(),
            i <= n,
            fold_children(Seq::<DictionaryEntryV>::empty(), cs@.take(i as int), entry_stepper())
                == Ok::<Seq<DictionaryEntryV>, ParseError>(entries.deep_view()),
            spec_entries_of(*root) == fold_children(
                Seq::<DictionaryEntryV>::empty(),
                cs@,
                entry_stepper(),
            ),
        decreases n - i,
    {
        proof {
            lemma_fold_children_step(
                Seq::<DictionaryEntryV>::empty(),
                cs@,
                entry_stepper(),
                i as int,
            );
        }
        let child = &cs[i];
        if str_eq(child.tag.as_str(), "termEntry") {
            match parse_entry(child) {
                Ok(ent) => {
                    let ghost before = entries.deep_view();
                    entries.push(ent);
                    proof {
                        assert(entries.deep_view() =~= before.push(ent@));
                    }
                },
                Err(e) => {
                    proof {
                        lemma_fold_children_err(
                            Seq::<DictionaryEntryV>::empty(),
                            cs@,
                            entry_stepper(),
                            i + 1,
                        );
                    }
                    return Err(e);
                },
            }
        }
        i = i + 1;
    }
    proof {
        assert(cs@.take(n as int) =~= cs@);
    }
    Ok(entries)
}

impl Dictionary {
    /// An empty dictionary.
    pub fn new() -> (r: Dictionary)
        ensures
            r@ == Seq::<DictionaryEntryV>::empty(),
    {
        let d = Dictionary { entries: Vec::new() };
        proof {
            assert(d@ =~= Seq::<DictionaryEntryV>::empty());
        }
        d
    }

    /// Appends one concept entry.
    pub fn add_entry(&mut self, entry: DictionaryEntry)
        ensures
            final(self)@ == old(self)@.push(entry@),
    {
        let ghost before = self@;
        let ghost ev = entry@;
        self.entries.push(entry);
        proof {
            assert(self@ =~= before.push(ev));
        }
    }

    /// Parses the concept entries under a document tree and appends them,
    /// leaving the dictionary unchanged on a parse error.
    pub fn process_entries(&mut self, root: &XmlNode) -> (r: Result<(), ParseError>)
        ensures
            match spec_entries_of(*root) {
                Ok(es) => r is Ok && final(self)@ == old(self)@ + es,
                Err(e) => r == Err::<(), ParseError>(e) && *final(self) == *old(self),
            },
    {
        match parse_entries(root) {
            Ok(mut parsed) => {
                let ghost before = self@;
                let ghost pv = parsed.deep_view();
                self.entries.append(&mut parsed);
                proof {
                    assert(self@ =~= before + pv);
                }
                Ok(())
            },
            Err(e) => Err(e),
        }
    }

    /// Parses a whole document text and appends its concept entries,
    /// leaving the dictionary unchanged on a parse error.
    pub fn import_from_xml(&mut self, xml: &str) -> (r: Result<(), ParseError>)
        ensures
            match spec_dictionary_of(xml@) {
                Ok(es) => r is Ok && final(self)@ == old(self)@ + es,
                Err(e) => r == Err::<(), ParseError>(e) && *final(self) == *old(self),
            },
    {
        match parse_xml_tree(xml) {
            Some(root) => self.process_entries(&root),
            None => Err(ParseError::Xml),
        }
    }
}

impl New for Dictionary {
    fn new() -> Dictionary {
        Dictionary::new()
    }
}

} // verus!
