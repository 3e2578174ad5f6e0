//! The configuration of the client: where scripts go and which repository
//! holds the feature sets.
use crate::info::{join, joined};
use crate::text::{align_columns, aligned, concat};
use vstd::prelude::*;

verus! {

/// The access to the repository that holds the feature sets, and the author
/// of the changes.
#[derive(Debug)]
pub struct RepositoryConfig {
    pub url: String,
    pub api_token: String,
    pub repository: String,
    pub owner: String,
    pub email: String,
    pub author: String,
}

/// The whole configuration.
#[derive(Debug)]
pub struct RusteaConfiguration {
    /// The local folder that scripts are pulled to.
    pub script_folder: String,
    pub exclude: String,
    pub repo: RepositoryConfig,
}

impl RusteaConfiguration {
    /// The first configuration for a repository: scripts go to
    /// `/usr/local/bin`, `.git` is excluded, and the owner is the author of
    /// the changes, with no e-mail address yet.
    pub fn create_initial_configuration(url: &str, api_token: &str, repository: &str, owner: &str) -> (c:
        RusteaConfiguration)
        ensures
            c.script_folder@ == "/usr/local/bin"@,
            c.exclude@ == ".git"@,
            c.repo.url@ == url@,
            c.repo.api_token@ == api_token@,
            c.repo.repository@ == repository@,
            c.repo.owner@ == owner@,
            c.repo.email@.len() == 0,
            c.repo.author@ == owner@,
    {
        RusteaConfiguration {
            script_folder: "/usr/local/bin".to_owned(),
            exclude: ".git".to_owned(),
            repo: RepositoryConfig {
                url: url.to_owned(),
                api_token: api_token.to_owned(),
                repository: repository.to_owned(),
                owner: owner.to_owned(),
                email: String::new(),
                author: owner.to_owned(),
            },
        }
    }
}

impl RepositoryConfig {
    /// The columns of the report on the repository's access, before alignment.
    pub open spec fn columns(&self) -> Seq<char> {
        joined(
            seq![
                "\turl\t= "@,
                self.url@,
                "\n\tapi_token\t= "@,
                self.api_token@,
                "\n\trepository\t= "@,
                self.repository@,
                "\n\towner\t= "@,
                self.owner@,
                "\n\temail\t= "@,
                self.email@,
                "\n\tauthor\t= "@,
                self.author@,
            ],
        )
    }

    /// The report on the repository's access, aligned in columns.
    pub fn describe(&self) -> (r: String)
        ensures
            r@ == aligned(self.columns(), 2),
    {
        let mut p: Vec<String> = Vec::new();
        p.push("\turl\t= ".to_owned());
        p.push(self.url.clone());
        p.push("\n\tapi_token\t= ".to_owned());
        p.push(self.api_token.clone());
        p.push("\n\trepository\t= ".to_owned());
        p.push(self.repository.clone());
        p.push("\n\towner\t= ".to_owned());
        p.push(self.owner.clone());
        p.push("\n\temail\t= ".to_owned());
        p.push(self.email.clone());
        p.push("\n\tauthor\t= ".to_owned());
        p.push(self.author.clone());
        let text = join(&p);
        assert(p@.map_values(|x: String| x@) =~= seq![
            "\turl\t= "@,
            self.url@,
            "\n\tapi_token\t= "@,
            self.api_token@,
            "\n\trepository\t= "@,
            self.repository@,
            "\n\towner\t= "@,
            self.owner@,
            "\n\temail\t= "@,
            self.email@,
            "\n\tauthor\t= "@,
            self.author@,
        ]);
        align_columns(text.as_str(), 2)
    }
}

impl RusteaConfiguration {
    /// The report on the configuration, for the program of the given version,
    /// with the script folder written as given (resolved by the caller).
    pub fn describe(&self, version: &str, script_folder: &str) -> (r: String)
        ensures
            r@ == "rustea version "@ + version@ + "\nscript_folder = "@ + script_folder@
                + "\nexclude= "@ + self.exclude@ + "\nrepo = {\n"@ + aligned(self.repo.columns(), 2)
                + "\n}"@,
    {
        let a = concat("rustea version ", version);
        let b = concat(a.as_str(), "\nscript_folder = ");
        let c = concat(b.as_str(), script_folder);
        let d = concat(c.as_str(), "\nexclude= ");
        let e = concat(d.as_str(), self.exclude.as_str());
        let f = concat(e.as_str(), "\nrepo = {\n");
        let g = concat(f.as_str(), self.repo.describe().as_str());
        concat(g.as_str(), "\n}")
    }
}

/// Where the configuration file lives by default: `.rustea.toml` in the
/// home directory.
pub fn default_config_path(home: &str) -> (r: String)
    ensures
        r@ == home@ + "/.rustea.toml"@,
{
    concat(home, "/.rustea.toml")
}

} // verus!
