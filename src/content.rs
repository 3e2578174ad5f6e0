//! The server's answers: JSON values, content entries and content listings.
use crate::error::ApiError;
use crate::text::{align_columns, aligned, concat, str_eq};
use vstd::prelude::*;

verus! {

/// A JSON value as the server sends it. Numbers keep their text. An object is
/// its list of members in order; a key is looked up at its first occurrence.
#[derive(Debug)]
pub enum Json {
    Null,
    Bool(bool),
    Number(String),
    Str(String),
    Array(Vec<Json>),
    Object(Vec<(String, Json)>),
}

/// The characters of an optional string.
pub open spec fn opt_view(o: Option<String>) -> Option<Seq<char>> {
    match o {
        Some(s) => Some(s@),
        None => None,
    }
}

/// The value of the first member named `key`.
pub open spec fn member(fields: Seq<(String, Json)>, key: Seq<char>) -> Option<Json>
    decreases fields.len(),
{
    if fields.len() == 0 {
        None
    } else if fields[0].0@ == key {
        Some(fields[0].1)
    } else {
        member(fields.drop_first(), key)
    }
}

/// The string held by the member named `key`; `None` when it is missing or
/// holds something else.
pub open spec fn member_str(fields: Seq<(String, Json)>, key: Seq<char>) -> Option<Seq<char>> {
    match member(fields, key) {
        Some(Json::Str(s)) => Some(s@),
        _ => None,
    }
}

/// The string held by the member named `key` of an object.
pub fn get_str(fields: &Vec<(String, Json)>, key: &str) -> (r: Option<String>)
    ensures
        opt_view(r) == member_str(fields@, key@),
{
    let n = fields.len();
    let mut i: usize = 0;
    assert(fields@.subrange(0, n as int) =~= fields@);
    while i < n
        invariant
            n == fields@.len(),
            i <= n,
            member(fields@, key@) == member(fields@.subrange(i as int, n as int), key@),
        decreases n - i,
    {
        let rest = Ghost(fields@.subrange(i as int, n as int));
        assert(rest@[0] == fields@[i as int]);
        if str_eq(fields[i].0.as_str(), key) {
            match &fields[i].1 {
                Json::Str(s) => {
                    return Some(s.clone());
                },
                _ => {
                    return None;
                },
            }
        }
        assert(rest@.drop_first() =~= fields@.subrange(i + 1, n as int));
        i = i + 1;
    }
    None
}

/// The kind of an entry of the repository. A kind that the library does not
/// know is taken as a file.
#[derive(Debug, Clone, Copy, PartialEq, Eq, Structural)]
pub enum ContentType {
    File,
    Dir,
    Symlink,
    Submodule,
}

/// The kind that the server's `type` string names.
pub open spec fn content_type_of(s: Seq<char>) -> ContentType {
    if s == "dir"@ {
        ContentType::Dir
    } else if s == "symlink"@ {
        ContentType::Symlink
    } else if s == "submodule"@ {
        ContentType::Submodule
    } else {
        ContentType::File
    }
}

impl ContentType {
    /// The kind that the server's `type` string names; `File` for any string it
    /// does not know.
    pub fn new(stype: &str) -> (r: ContentType)
        ensures
            r == content_type_of(stype@),
    {
        if str_eq(stype, "dir") {
            ContentType::Dir
        } else if str_eq(stype, "symlink") {
            ContentType::Symlink
        } else if str_eq(stype, "submodule") {
            ContentType::Submodule
        } else {
            ContentType::File
        }
    }
}

impl Default for ContentType {
    fn default() -> (r: ContentType)
        ensures
            r == ContentType::File,
    {
        ContentType::File
    }
}

/// What an entry holds, over plain sequences.
pub struct EntryView {
    pub download_url: Option<Seq<char>>,
    pub name: Seq<char>,
    pub path: Seq<char>,
    pub content_type: ContentType,
    pub sha: Option<Seq<char>>,
}

/// One file, directory, link or submodule of the repository.
#[derive(Debug)]
pub struct ContentEntry {
    pub download_url: Option<String>,
    /// The base name.
    pub name: String,
    /// The path from the repository's root.
    pub path: String,
    pub content_type: ContentType,
    /// The hash of the content, which the server asks for to change or delete it.
    pub sha: Option<String>,
}

impl View for ContentEntry {
    type V = EntryView;

    open spec fn view(&self) -> EntryView {
        EntryView {
            download_url: opt_view(self.download_url),
            name: self.name@,
            path: self.path@,
            content_type: self.content_type,
            sha: opt_view(self.sha),
        }
    }
}

/// The members hold a non-empty `name` and `path` and a `type`, all strings.
pub open spec fn has_entry_members(f: Seq<(String, Json)>) -> bool {
    &&& member_str(f, "name"@) is Some
    &&& member_str(f, "name"@)->0.len() > 0
    &&& member_str(f, "path"@) is Some
    &&& member_str(f, "path"@)->0.len() > 0
    &&& member_str(f, "type"@) is Some
}

/// The entry that a JSON value describes: an object with non-empty string
/// members `name` and `path` and a string member `type`; `download_url` and
/// `sha` are kept where they hold strings. `None` for anything else.
pub open spec fn entry_of(v: Json) -> Option<EntryView> {
    match v {
        Json::Object(fields) => {
            let f = fields@;
            if has_entry_members(f) {
                Some(
                    EntryView {
                        download_url: member_str(f, "download_url"@),
                        name: member_str(f, "name"@)->0,
                        path: member_str(f, "path"@)->0,
                        content_type: content_type_of(member_str(f, "type"@)->0),
                        sha: member_str(f, "sha"@),
                    },
                )
            } else {
                None
            }
        },
        _ => None,
    }
}

fn invalid(msg: &str) -> (e: ApiError)
    ensures
        e is InvalidContentResponse,
{
    ApiError::InvalidContentResponse(msg.to_owned())
}

fn parse_entry(entry: &Json) -> (r: Result<ContentEntry, ApiError>)
    ensures
        match entry_of(*entry) {
            Some(e) => r matches Ok(x) && x@ == e,
            None => r matches Err(err) && err is InvalidContentResponse,
        },
{
    match entry {
        Json::Object(fields) => {
            let download_url = get_str(fields, "download_url");
            let sha = get_str(fields, "sha");
            let name = match get_str(fields, "name") {
                Some(n) => n,
                None => {
                    return Err(invalid("File name missing."));
                },
            };
            if name.as_str().unicode_len() == 0 {
                return Err(invalid("File name empty."));
            }
            let path = match get_str(fields, "path") {
                Some(p) => p,
                None => {
                    return Err(invalid("File path missing."));
                },
            };
            if path.as_str().unicode_len() == 0 {
                return Err(invalid("File path empty."));
            }
            let content_type = match get_str(fields, "type") {
                Some(t) => ContentType::new(t.as_str()),
                None => {
                    return Err(invalid("Content type missing."));
                },
            };
            Ok(ContentEntry { download_url, name, path, content_type, sha })
        },
        _ => Err(invalid("A valid content object is needed.")),
    }
}

impl ContentEntry {
    /// The entry that a JSON object describes, or `InvalidContentResponse`
    /// where the value is no object or lacks `name`, `path` or `type`.
    pub fn new(entry: Json) -> (r: Result<ContentEntry, ApiError>)
        ensures
            match entry_of(entry) {
                Some(e) => r matches Ok(x) && x@ == e,
                None => r matches Err(err) && err is InvalidContentResponse,
            },
    {
        parse_entry(&entry)
    }
}

/// The entry is of the kind asked for, where one is.
pub open spec fn type_matches(e: EntryView, type_filter: Option<ContentType>) -> bool {
    match type_filter {
        Some(t) => e.content_type == t,
        None => true,
    }
}

/// The entries that a JSON array describes, in order, keeping those of the
/// kind asked for; `None` as soon as one element describes no entry.
pub open spec fn array_listing(items: Seq<Json>, type_filter: Option<ContentType>) -> Option<
    Seq<EntryView>,
>
    decreases items.len(),
{
    if items.len() == 0 {
        Some(Seq::empty())
    } else {
        match (array_listing(items.drop_last(), type_filter), entry_of(items.last())) {
            (Some(es), Some(e)) => Some(
                if type_matches(e, type_filter) {
                    es.push(e)
                } else {
                    es
                },
            ),
            _ => None,
        }
    }
}

/// The listing that a JSON value describes, keeping only entries of the kind
/// asked for: an array gives its entries, a single object gives itself;
/// `None` for anything else.
pub open spec fn listing_of(v: Json, type_filter: Option<ContentType>) -> Option<Seq<EntryView>> {
    match v {
        Json::Array(items) => array_listing(items@, type_filter),
        Json::Object(_) => match entry_of(v) {
            Some(e) => Some(
                if type_matches(e, type_filter) {
                    seq![e]
                } else {
                    Seq::empty()
                },
            ),
            None => None,
        },
        _ => None,
    }
}

/// Once a prefix of an array describes no listing, the whole array does not.
proof fn lemma_array_listing_prefix_fails(items: Seq<Json>, k: int, type_filter: Option<ContentType>)
    requires
        0 <= k <= items.len(),
        array_listing(items.subrange(0, k), type_filter) is None,
    ensures
        array_listing(items, type_filter) is None,
    decreases items.len(),
{
    if k == items.len() {
        assert(items.subrange(0, k) =~= items);
    } else {
        assert(items.drop_last().subrange(0, k) =~= items.subrange(0, k));
        lemma_array_listing_prefix_fails(items.drop_last(), k, type_filter);
    }
}

/// An array whose every element describes an entry lists all of them, in
/// their order.
pub proof fn law_listing_keeps_order(items: Seq<Json>)
    requires
        forall|i: int| 0 <= i < items.len() ==> entry_of(#[trigger] items[i]) is Some,
    ensures
        array_listing(items, None) == Some(items.map_values(|v: Json| entry_of(v)->0)),
    decreases items.len(),
{
    if items.len() == 0 {
        assert(items.map_values(|v: Json| entry_of(v)->0) =~= Seq::<EntryView>::empty());
    } else {
        let rest = items.drop_last();
        assert forall|i: int| 0 <= i < rest.len() implies entry_of(#[trigger] rest[i]) is Some by {
            assert(rest[i] == items[i]);
        }
        law_listing_keeps_order(rest);
        assert(entry_of(items.last()) is Some);
        assert(rest.map_values(|v: Json| entry_of(v)->0).push(entry_of(items.last())->0)
            =~= items.map_values(|v: Json| entry_of(v)->0));
    }
}

/// An array with an element that is no object describes no listing.
pub proof fn law_listing_rejects_non_object(
    items: Seq<Json>,
    k: int,
    type_filter: Option<ContentType>,
)
    requires
        0 <= k < items.len(),
        !(items[k] is Object),
    ensures
        array_listing(items, type_filter) is None,
{
    let sub = items.subrange(0, k + 1);
    assert(sub.drop_last() =~= items.subrange(0, k));
    assert(sub.last() == items[k]);
    lemma_array_listing_prefix_fails(items, k + 1, type_filter);
}

/// An empty array is an empty listing.
pub proof fn law_empty_listing(type_filter: Option<ContentType>)
    ensures
        array_listing(Seq::empty(), type_filter) == Some(Seq::<EntryView>::empty()),
{
}

/// A single object that describes an entry is a listing of that entry alone,
/// where no kind is asked for.
pub proof fn law_single_object_listing(v: Json)
    requires
        v is Object,
        entry_of(v) is Some,
    ensures
        listing_of(v, None) == Some(seq![entry_of(v)->0]),
{
}

/// Under a type filter, every entry of a listing is of the kind asked for,
/// whether the server sent an array or a single object.
pub proof fn law_listing_holds_filtered_kind(v: Json, t: ContentType, i: int)
    requires
        listing_of(v, Some(t)) is Some,
        0 <= i < listing_of(v, Some(t))->0.len(),
    ensures
        listing_of(v, Some(t))->0[i].content_type == t,
{
    if v is Array {
        lemma_array_listing_kind(v->Array_0@, t, i);
    }
}

proof fn lemma_array_listing_kind(items: Seq<Json>, t: ContentType, i: int)
    requires
        array_listing(items, Some(t)) is Some,
        0 <= i < array_listing(items, Some(t))->0.len(),
    ensures
        array_listing(items, Some(t))->0[i].content_type == t,
    decreases items.len(),
{
    let rest = array_listing(items.drop_last(), Some(t))->0;
    if i < rest.len() {
        lemma_array_listing_kind(items.drop_last(), t, i);
    }
}

/// An entry whose `type` names no kind that the library knows is a file.
pub proof fn law_unknown_type_is_file(v: Json, t: Seq<char>)
    requires
        v is Object,
        has_entry_members(v->Object_0@),
        member_str(v->Object_0@, "type"@) == Some(t),
        t != "dir"@,
        t != "symlink"@,
        t != "submodule"@,
    ensures
        entry_of(v) matches Some(e) && e.content_type == ContentType::File,
{
}

/// An entry without `download_url` is kept, without one.
pub proof fn law_download_url_is_optional(v: Json)
    requires
        v is Object,
        has_entry_members(v->Object_0@),
        member(v->Object_0@, "download_url"@) is None,
    ensures
        entry_of(v) matches Some(e) && e.download_url is None,
{
}

/// An object without `name`, `path` or `type` describes no entry.
pub proof fn law_required_members(v: Json)
    requires
        v is Object,
        member(v->Object_0@, "name"@) is None || member(v->Object_0@, "path"@) is None || member(
            v->Object_0@,
            "type"@,
        ) is None,
    ensures
        entry_of(v) is None,
{
}

/// An ordered list of entries: the content of a directory, or a single file.
#[derive(Debug)]
pub struct ContentsResponse {
    pub content: Vec<ContentEntry>,
}

impl View for ContentsResponse {
    type V = Seq<EntryView>;

    open spec fn view(&self) -> Seq<EntryView> {
        self.content@.map_values(|e: ContentEntry| e@)
    }
}

impl ContentsResponse {
    /// The listing that the server's JSON describes, keeping only entries of
    /// `type_filter`'s kind where it is given: an array gives its entries in
    /// order, a single object gives itself. Anything else, or an element that
    /// is no valid entry, gives `InvalidContentResponse`.
    pub fn new(content: Json, type_filter: Option<ContentType>) -> (r: Result<
        ContentsResponse,
        ApiError,
    >)
        ensures
            match listing_of(content, type_filter) {
                Some(es) => r matches Ok(x) && x@ == es,
                None => r matches Err(err) && err is InvalidContentResponse,
            },
    {
        match &content {
            Json::Array(items) => {
                let n = items.len();
                let mut c: Vec<ContentEntry> = Vec::new();
                let mut i: usize = 0;
                while i < n
                    invariant
                        n == items@.len(),
                        i <= n,
                        listing_of(content, type_filter) == array_listing(items@, type_filter),
                        array_listing(items@.subrange(0, i as int), type_filter) == Some(
                            c@.map_values(|e: ContentEntry| e@),
                        ),
                    decreases n - i,
                {
                    let ghost before = c@.map_values(|e: ContentEntry| e@);
                    let ghost sub = items@.subrange(0, i + 1);
                    assert(sub.drop_last() =~= items@.subrange(0, i as int));
                    assert(sub.last() == items@[i as int]);
                    let entry = parse_entry(&items[i]);
                    match entry {
                        Ok(e) => {
                            let keep = match type_filter {
                                Some(t) => e.content_type == t,
                                None => true,
                            };
                            if keep {
                                let ghost ev = e@;
                                c.push(e);
                                assert(c@.map_values(|e: ContentEntry| e@) =~= before.push(ev));
                            }
                        },
                        Err(err) => {
                            proof {
                                assert(entry_of(sub.last()) is None);
                                assert(array_listing(sub, type_filter) is None);
                                lemma_array_listing_prefix_fails(items@, i + 1, type_filter);
                            }
                            return Err(err);
                        },
                    }
                    i = i + 1;
                }
                assert(items@.subrange(0, n as int) =~= items@);
                Ok(ContentsResponse { content: c })
            },
            Json::Object(_) => {
                let e = parse_entry(&content);
                match e {
                    Ok(e) => {
                        let keep = match type_filter {
                            Some(t) => e.content_type == t,
                            None => true,
                        };
                        let mut c: Vec<ContentEntry> = Vec::new();
                        if keep {
                            c.push(e);
                            assert(c@.map_values(|e: ContentEntry| e@) =~= seq![c@[0]@]);
                        } else {
                            assert(c@.map_values(|e: ContentEntry| e@) =~= Seq::<EntryView>::empty());
                        }
                        Ok(ContentsResponse { content: c })
                    },
                    Err(err) => Err(err),
                }
            },
            _ => Err(invalid("Only json arrays are valid content responses")),
        }
    }
}

/// The rows of a listing's table: the name and the path of each entry,
/// separated by a tab, one line each.
pub open spec fn table_rows(entries: Seq<EntryView>) -> Seq<char>
    decreases entries.len(),
{
    if entries.len() == 0 {
        Seq::empty()
    } else {
        table_rows(entries.drop_last()) + entries.last().name + "\t"@ + entries.last().path + "\n"@
    }
}

/// The columns of a listing's table, before alignment.
pub open spec fn table_text(entries: Seq<EntryView>) -> Seq<char> {
    "Name\tPath\n"@ + table_rows(entries)
}

impl ContentsResponse {
    /// The listing as a table of names and paths, aligned in columns.
    pub fn table(&self) -> (r: String)
        ensures
            r@ == aligned(table_text(self@), 15),
    {
        let mut text = "Name\tPath\n".to_owned();
        let n = self.content.len();
        let mut i: usize = 0;
        while i < n
            invariant
                n == self.content@.len(),
                n == self@.len(),
                i <= n,
                text@ == "Name\tPath\n"@ + table_rows(self@.subrange(0, i as int)),
            decreases n - i,
        {
            let ghost prev = self@.subrange(0, i as int);
            let ghost next = self@.subrange(0, i + 1);
            assert(next.drop_last() =~= prev);
            assert(next.last() == self.content@[i as int]@);
            let e = &self.content[i];
            let row = concat(e.name.as_str(), "\t");
            let row = concat(row.as_str(), e.path.as_str());
            let row = concat(row.as_str(), "\n");
            text = concat(text.as_str(), row.as_str());
            assert(text@ =~= "Name\tPath\n"@ + table_rows(next));
            i = i + 1;
        }
        assert(self@.subrange(0, n as int) =~= self@);
        align_columns(text.as_str(), 15)
    }

    /// The message that lists the content of a feature set, or of the
    /// repository, under its title.
    pub fn listing_message(&self, title: &str) -> (r: String)
        ensures
            r@ == title@ + " content:\n"@ + aligned(table_text(self@), 15),
    {
        let head = concat(title, " content:\n");
        concat(head.as_str(), self.table().as_str())
    }
}

} // verus!
