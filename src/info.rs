//! What the server tells about itself, its users and the repository.
use crate::text::{align_columns, aligned, concat, i64_text, int_text};
use vstd::prelude::*;

verus! {

/// An API token as the server hands it out.
#[derive(Debug)]
pub struct ApiToken {
    pub id: i64,
    pub name: String,
    pub sha1: String,
    pub token_last_eight: String,
}

/// The pieces, one after the other.
pub open spec fn joined(parts: Seq<Seq<char>>) -> Seq<char>
    decreases parts.len(),
{
    if parts.len() == 0 {
        Seq::empty()
    } else {
        joined(parts.drop_last()) + parts.last()
    }
}

/// Joins the pieces into one string.
pub fn join(parts: &Vec<String>) -> (r: String)
    ensures
        r@ == joined(parts@.map_values(|p: String| p@)),
{
    let ghost all = parts@.map_values(|p: String| p@);
    let mut out = String::new();
    let n = parts.len();
    let mut i: usize = 0;
    while i < n
        invariant
            n == parts@.len(),
            all == parts@.map_values(|p: String| p@),
            i <= n,
            out@ == joined(all.subrange(0, i as int)),
        decreases n - i,
    {
        let ghost next = all.subrange(0, i + 1);
        assert(next.drop_last() =~= all.subrange(0, i as int));
        out = concat(out.as_str(), parts[i].as_str());
        i = i + 1;
    }
    assert(all.subrange(0, n as int) =~= all);
    out
}

impl ApiToken {
    /// The line that reports the token, with the last eight characters of its
    /// secret alone.
    pub fn describe(&self) -> (r: String)
        ensures
            r@ == "Api Token number "@ + int_text(self.id as int) + ", name "@ + self.name@ + ": "@
                + self.token_last_eight@,
    {
        let a = concat("Api Token number ", i64_text(self.id).as_str());
        let b = concat(a.as_str(), ", name ");
        let c = concat(b.as_str(), self.name.as_str());
        let d = concat(c.as_str(), ": ");
        concat(d.as_str(), self.token_last_eight.as_str())
    }
}

/// The version of the Gitea server.
#[derive(Debug)]
pub struct Version {
    pub version: String,
}

impl Version {
    /// The line that reports the version.
    pub fn describe(&self) -> (r: String)
        ensures
            r@ == "Gitea version: "@ + self.version@,
    {
        concat("Gitea version: ", self.version.as_str())
    }
}

/// A user of the server.
#[derive(Debug)]
pub struct User {
    pub id: i64,
    pub full_name: String,
    pub created: String,
    pub email: String,
    pub is_admin: bool,
    pub language: String,
    pub last_login: String,
    pub login: String,
    pub restricted: bool,
}

impl User {
    /// The columns of the report on the user, before alignment.
    pub open spec fn columns(&self) -> Seq<char> {
        joined(
            seq![
                "\n\t\tid\t= "@,
                int_text(self.id as int),
                "\n\t\tName\t= "@,
                self.full_name@,
                "\n\t\tCreated\t= "@,
                self.created@,
                "\n\t\tMail\t= "@,
                self.email@,
                "\n\t\tAdmin\t= "@,
                bool_text(self.is_admin),
                "\n\t\tLang\t= "@,
                self.language@,
                "\n\t\tLast login\t= "@,
                self.last_login@,
                "\n\t\tLogin\t= "@,
                self.login@,
                "\n\t\tRestricted\t= "@,
                bool_text(self.restricted),
            ],
        )
    }

    /// The report on the user, aligned in columns.
    pub fn describe(&self) -> (r: String)
        ensures
            r@ == aligned(self.columns(), 2),
    {
        let mut p: Vec<String> = Vec::new();
        p.push("\n\t\tid\t= ".to_owned());
        p.push(i64_text(self.id));
        p.push("\n\t\tName\t= ".to_owned());
        p.push(self.full_name.clone());
        p.push("\n\t\tCreated\t= ".to_owned());
        p.push(self.created.clone());
        p.push("\n\t\tMail\t= ".to_owned());
        p.push(self.email.clone());
        p.push("\n\t\tAdmin\t= ".to_owned());
        p.push(bool_string(self.is_admin));
        p.push("\n\t\tLang\t= ".to_owned());
        p.push(self.language.clone());
        p.push("\n\t\tLast login\t= ".to_owned());
        p.push(self.last_login.clone());
        p.push("\n\t\tLogin\t= ".to_owned());
        p.push(self.login.clone());
        p.push("\n\t\tRestricted\t= ".to_owned());
        p.push(bool_string(self.restricted));
        let text = join(&p);
        assert(p@.map_values(|x: String| x@) =~= seq![
            "\n\t\tid\t= "@,
            int_text(self.id as int),
            "\n\t\tName\t= "@,
            self.full_name@,
            "\n\t\tCreated\t= "@,
            self.created@,
            "\n\t\tMail\t= "@,
            self.email@,
            "\n\t\tAdmin\t= "@,
            bool_text(self.is_admin),
            "\n\t\tLang\t= "@,
            self.language@,
            "\n\t\tLast login\t= "@,
            self.last_login@,
            "\n\t\tLogin\t= "@,
            self.login@,
            "\n\t\tRestricted\t= "@,
            bool_text(self.restricted),
        ]);
        align_columns(text.as_str(), 2)
    }
}

/// What the token's user may do with the repository.
#[derive(Debug)]
pub struct Permission {
    pub admin: bool,
    pub pull: bool,
    pub push: bool,
}

/// The text of a flag.
pub open spec fn bool_text(b: bool) -> Seq<char> {
    if b {
        "true"@
    } else {
        "false"@
    }
}

fn bool_string(b: bool) -> (r: String)
    ensures
        r@ == bool_text(b),
{
    if b {
        "true".to_owned()
    } else {
        "false".to_owned()
    }
}

impl Permission {
    /// The line that reports the permissions.
    pub fn describe(&self) -> (r: String)
        ensures
            r@ == "Permissions: admin["@ + bool_text(self.admin) + "], pull["@ + bool_text(self.pull)
                + "], push["@ + bool_text(self.push) + "]"@,
    {
        let a = concat("Permissions: admin[", bool_string(self.admin).as_str());
        let b = concat(a.as_str(), "], pull[");
        let c = concat(b.as_str(), bool_string(self.pull).as_str());
        let d = concat(c.as_str(), "], push[");
        let e = concat(d.as_str(), bool_string(self.push).as_str());
        concat(e.as_str(), "]")
    }
}

/// The repository as the server describes it.
#[derive(Debug)]
pub struct Repository {
    pub empty: bool,
    pub id: i64,
    pub default_branch: String,
    pub description: String,
    pub name: String,
    pub full_name: String,
    pub permissions: Permission,
    pub owner: User,
    pub updated_at: String,
}

impl Repository {
    /// The columns of the report on the repository, before alignment.
    pub open spec fn columns(&self) -> Seq<char> {
        joined(
            seq![
                "Repository "@,
                int_text(self.id as int),
                " {\n\tName\t= "@,
                self.name@,
                "\n\tFull name\t= "@,
                self.full_name@,
                "\n\tDescription\t= "@,
                self.description@,
                "\n\tEmpty\t= "@,
                bool_text(self.empty),
                "\n\tUpdated at\t= "@,
                self.updated_at@,
                "\n\tPermissions\t= "@,
                "Permissions: admin["@ + bool_text(self.permissions.admin) + "], pull["@ + bool_text(
                    self.permissions.pull,
                ) + "], push["@ + bool_text(self.permissions.push) + "]"@,
                "\n\tOwner\t= { "@,
                aligned(self.owner.columns(), 2),
                "\n\t}\n}"@,
            ],
        )
    }

    /// The report on the repository and its owner, aligned in columns.
    pub fn describe(&self) -> (r: String)
        ensures
            r@ == aligned(self.columns(), 2),
    {
        let mut p: Vec<String> = Vec::new();
        p.push("Repository ".to_owned());
        p.push(i64_text(self.id));
        p.push(" {\n\tName\t= ".to_owned());
        p.push(self.name.clone());
        p.push("\n\tFull name\t= ".to_owned());
        p.push(self.full_name.clone());
        p.push("\n\tDescription\t= ".to_owned());
        p.push(self.description.clone());
        p.push("\n\tEmpty\t= ".to_owned());
        p.push(bool_string(self.empty));
        p.push("\n\tUpdated at\t= ".to_owned());
        p.push(self.updated_at.clone());
        p.push("\n\tPermissions\t= ".to_owned());
        p.push(self.permissions.describe());
        p.push("\n\tOwner\t= { ".to_owned());
        p.push(self.owner.describe());
        p.push("\n\t}\n}".to_owned());
        let text = join(&p);
        assert(p@.map_values(|x: String| x@) =~= seq![
            "Repository "@,
            int_text(self.id as int),
            " {\n\tName\t= "@,
            self.name@,
            "\n\tFull name\t= "@,
            self.full_name@,
            "\n\tDescription\t= "@,
            self.description@,
            "\n\tEmpty\t= "@,
            bool_text(self.empty),
            "\n\tUpdated at\t= "@,
            self.updated_at@,
            "\n\tPermissions\t= "@,
            "Permissions: admin["@ + bool_text(self.permissions.admin) + "], pull["@ + bool_text(
                self.permissions.pull,
            ) + "], push["@ + bool_text(self.permissions.push) + "]"@,
            "\n\tOwner\t= { "@,
            aligned(self.owner.columns(), 2),
            "\n\t}\n}"@,
        ]);
        align_columns(text.as_str(), 2)
    }
}

} // verus!
