//! Startup options, resolved once into one configuration with its
//! defaults filled in.
use vstd::prelude::*;

verus! {

/// Collection used when none is named.
pub const DEFAULT_INDEX: &'static str = "first-index";

/// Reprompt template used when none is named.
pub const DEFAULT_REPROMPT_PATH: &'static str = "./src/prompts/reprompt/reprompt.txt";

/// Where the tokenizer comes from.
pub enum TokenizerSource {
    /// A tokenizer file on disk.
    File(String),
    /// A tokenizer repository to fetch.
    Remote(String),
    /// The one embedded in the model file.
    Embedded,
}

/// Options that cannot be used together.
#[derive(PartialEq, Eq, Structural, Clone, Copy, Debug)]
pub enum ConfigError {
    /// Both a tokenizer file and a tokenizer repository were given.
    ConflictingTokenizers,
}

/// The options as given on the command line.
pub struct Args {
    pub model_architecture: String,
    pub model_path: String,
    pub tokenizer_path: Option<String>,
    pub tokenizer_repository: Option<String>,
    pub query: Option<String>,
    pub index: Option<String>,
    /// The table to ingest.
    pub path: Option<String>,
    /// The reprompt template.
    pub rp_path: Option<String>,
    pub isolation: Option<bool>,
    pub group_id: Option<u64>,
    pub upload: Option<bool>,
}

/// The resolved configuration.
pub struct Config {
    pub model_architecture: String,
    pub model_path: String,
    pub tokenizer: TokenizerSource,
    pub query: Option<String>,
    pub index: String,
    pub source_path: Option<String>,
    pub reprompt_path: String,
    pub isolation: bool,
    pub group_id: Option<u64>,
    pub upload: bool,
}

/// The text of an optional string, or `default` where it is absent.
pub open spec fn text_or(s: Option<String>, default: Seq<char>) -> Seq<char> {
    match s {
        Some(t) => t@,
        None => default,
    }
}

fn string_or(s: &Option<String>, default: &str) -> (r: String)
    ensures
        r@ == text_or(*s, default@),
{
    match s {
        Some(t) => t.clone(),
        None => default.to_owned(),
    }
}

fn clone_opt(s: &Option<String>) -> (r: Option<String>)
    ensures
        r == *s,
{
    match s {
        Some(t) => Some(t.clone()),
        None => None,
    }
}

impl Args {
    /// Where the tokenizer comes from: a file or a repository where one is
    /// named, the model's own otherwise; naming both is an error.
    pub fn to_tokenizer_source(&self) -> (r: Result<TokenizerSource, ConfigError>)
        ensures
            (self.tokenizer_path is Some && self.tokenizer_repository is Some)
                <==> r == Err::<TokenizerSource, ConfigError>(ConfigError::ConflictingTokenizers),
            self.tokenizer_path matches Some(p) ==> self.tokenizer_repository is None
                ==> (r matches Ok(TokenizerSource::File(f)) && f@ == p@),
            self.tokenizer_repository matches Some(q) ==> self.tokenizer_path is None
                ==> (r matches Ok(TokenizerSource::Remote(f)) && f@ == q@),
            self.tokenizer_path is None && self.tokenizer_repository is None
                ==> r == Ok::<TokenizerSource, ConfigError>(TokenizerSource::Embedded),
    {
        match (&self.tokenizer_path, &self.tokenizer_repository) {
            (Some(_), Some(_)) => Err(ConfigError::ConflictingTokenizers),
            (Some(path), None) => Ok(TokenizerSource::File(path.clone())),
            (None, Some(repo)) => Ok(TokenizerSource::Remote(repo.clone())),
            (None, None) => Ok(TokenizerSource::Embedded),
        }
    }

    /// The configuration these options give: the tokenizer source, and
    /// the collection, reprompt template, isolation mode and upload switch
    /// with their defaults (`DEFAULT_INDEX`, `DEFAULT_REPROMPT_PATH`, off,
    /// off) where they are not given.
    pub fn resolve(&self) -> (r: Result<Config, ConfigError>)
        ensures
            (self.tokenizer_path is Some && self.tokenizer_repository is Some) <==> r is Err,
            r matches Ok(c) ==> {
                &&& c.model_architecture@ == self.model_architecture@
                &&& c.model_path@ == self.model_path@
                &&& c.query == self.query
                &&& c.index@ == text_or(self.index, DEFAULT_INDEX@)
                &&& c.source_path == self.path
                &&& c.reprompt_path@ == text_or(self.rp_path, DEFAULT_REPROMPT_PATH@)
                &&& c.isolation == (self.isolation == Some(true))
                &&& c.group_id == self.group_id
                &&& c.upload == (self.upload == Some(true))
                &&& self.tokenizer_path matches Some(p) ==> (c.tokenizer matches TokenizerSource::File(f) && f@ == p@)
                &&& self.tokenizer_repository matches Some(q) ==> (c.tokenizer matches TokenizerSource::Remote(f)
                    && f@ == q@)
                &&& self.tokenizer_path is None && self.tokenizer_repository is None ==> c.tokenizer is Embedded
            },
    {
        let tokenizer = match self.to_tokenizer_source() {
            Ok(t) => t,
            Err(e) => return Err(e),
        };
        Ok(Config {
            model_architecture: self.model_architecture.clone(),
            model_path: self.model_path.clone(),
            tokenizer,
            query: clone_opt(&self.query),
            index: string_or(&self.index, DEFAULT_INDEX),
            source_path: clone_opt(&self.path),
            reprompt_path: string_or(&self.rp_path, DEFAULT_REPROMPT_PATH),
            isolation: match self.isolation { Some(b) => b, None => false },
            group_id: self.group_id,
            upload: match self.upload { Some(b) => b, None => false },
        })
    }
}

} // verus!
