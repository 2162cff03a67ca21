//! The enumerated settings and the names they go by in files, variables and
//! flags.

use vstd::prelude::*;

verus! {

/// How the assistant talks to the user.
#[derive(Debug, Clone, Copy, PartialEq, Eq, Structural)]
pub enum Frontend {
    Dialog,
    Readline,
    Noninteractive,
}

impl Frontend {
    /// The name of the mode in configuration sources.
    pub open spec fn label(self) -> Seq<char> {
        match self {
            Frontend::Dialog => "dialog"@,
            Frontend::Readline => "readline"@,
            Frontend::Noninteractive => "noninteractive"@,
        }
    }

    /// The mode that a name stands for.
    pub open spec fn named(name: Seq<char>) -> Option<Frontend> {
        if name == "dialog"@ {
            Some(Frontend::Dialog)
        } else if name == "readline"@ {
            Some(Frontend::Readline)
        } else if name == "noninteractive"@ {
            Some(Frontend::Noninteractive)
        } else {
            None
        }
    }

    pub fn name(self) -> (r: &'static str)
        ensures
            r@ == self.label(),
    {
        match self {
            Frontend::Dialog => "dialog",
            Frontend::Readline => "readline",
            Frontend::Noninteractive => "noninteractive",
        }
    }

    /// Reads a mode from its name; names are matched exactly.
    pub fn from_name(name: &str) -> (r: Option<Frontend>)
        ensures
            r == Frontend::named(name@),
    {
        if name.eq("dialog") {
            Some(Frontend::Dialog)
        } else if name.eq("readline") {
            Some(Frontend::Readline)
        } else if name.eq("noninteractive") {
            Some(Frontend::Noninteractive)
        } else {
            None
        }
    }

    /// Every mode, in declaration order.
    pub fn all() -> (r: Vec<Frontend>)
        ensures
            r@ == seq![Frontend::Dialog, Frontend::Readline, Frontend::Noninteractive],
    {
        let mut r: Vec<Frontend> = Vec::new();
        r.push(Frontend::Dialog);
        r.push(Frontend::Readline);
        r.push(Frontend::Noninteractive);
        r
    }
}

impl Default for Frontend {
    fn default() -> (r: Self)
        ensures
            r == Frontend::Dialog,
    {
        Frontend::Dialog
    }
}

/// How results are printed.
#[derive(Debug, Clone, Copy, PartialEq, Eq, Structural)]
pub enum OutputFormat {
    Human,
    Json,
}

impl OutputFormat {
    /// The name of the format in configuration sources.
    pub open spec fn label(self) -> Seq<char> {
        match self {
            OutputFormat::Human => "human"@,
            OutputFormat::Json => "json"@,
        }
    }

    /// The format that a name stands for.
    pub open spec fn named(name: Seq<char>) -> Option<OutputFormat> {
        if name == "human"@ {
            Some(OutputFormat::Human)
        } else if name == "json"@ {
            Some(OutputFormat::Json)
        } else {
            None
        }
    }

    pub fn name(self) -> (r: &'static str)
        ensures
            r@ == self.label(),
    {
        match self {
            OutputFormat::Human => "human",
            OutputFormat::Json => "json",
        }
    }

    /// Reads a format from its name; names are matched exactly.
    pub fn from_name(name: &str) -> (r: Option<OutputFormat>)
        ensures
            r == OutputFormat::named(name@),
    {
        if name.eq("human") {
            Some(OutputFormat::Human)
        } else if name.eq("json") {
            Some(OutputFormat::Json)
        } else {
            None
        }
    }

    /// Every format, in declaration order.
    pub fn all() -> (r: Vec<OutputFormat>)
        ensures
            r@ == seq![OutputFormat::Human, OutputFormat::Json],
    {
        let mut r: Vec<OutputFormat> = Vec::new();
        r.push(OutputFormat::Human);
        r.push(OutputFormat::Json);
        r
    }
}

impl Default for OutputFormat {
    fn default() -> (r: Self)
        ensures
            r == OutputFormat::Human,
    {
        OutputFormat::Human
    }
}

/// The backends that can answer a request.
#[derive(Debug, Clone, Copy, PartialEq, Eq, Hash, Structural)]
pub enum Provider {
    OpenAI,
    Groq,
    Azure,
    Ollama,
    Mistral,
}

impl Provider {
    /// The name of the provider in configuration sources, which is also the
    /// name of its section.
    pub open spec fn label(self) -> Seq<char> {
        match self {
            Provider::OpenAI => "openai"@,
            Provider::Groq => "groq"@,
            Provider::Azure => "azure"@,
            Provider::Ollama => "ollama"@,
            Provider::Mistral => "mistral"@,
        }
    }

    /// The provider that a name stands for.
    pub open spec fn named(name: Seq<char>) -> Option<Provider> {
        if name == "openai"@ {
            Some(Provider::OpenAI)
        } else if name == "groq"@ {
            Some(Provider::Groq)
        } else if name == "azure"@ {
            Some(Provider::Azure)
        } else if name == "ollama"@ {
            Some(Provider::Ollama)
        } else if name == "mistral"@ {
            Some(Provider::Mistral)
        } else {
            None
        }
    }

    /// The position of the provider in the provider table.
    pub open spec fn ordinal(self) -> int {
        match self {
            Provider::OpenAI => 0,
            Provider::Groq => 1,
            Provider::Azure => 2,
            Provider::Ollama => 3,
            Provider::Mistral => 4,
        }
    }

    /// Every provider, in table order.
    pub open spec fn every() -> Seq<Provider> {
        seq![Provider::OpenAI, Provider::Groq, Provider::Azure, Provider::Ollama, Provider::Mistral]
    }

    pub fn name(self) -> (r: &'static str)
        ensures
            r@ == self.label(),
    {
        match self {
            Provider::OpenAI => "openai",
            Provider::Groq => "groq",
            Provider::Azure => "azure",
            Provider::Ollama => "ollama",
            Provider::Mistral => "mistral",
        }
    }

    /// Reads a provider from its name; names are matched exactly.
    pub fn from_name(name: &str) -> (r: Option<Provider>)
        ensures
            r == Provider::named(name@),
    {
        if name.eq("openai") {
            Some(Provider::OpenAI)
        } else if name.eq("groq") {
            Some(Provider::Groq)
        } else if name.eq("azure") {
            Some(Provider::Azure)
        } else if name.eq("ollama") {
            Some(Provider::Ollama)
        } else if name.eq("mistral") {
            Some(Provider::Mistral)
        } else {
            None
        }
    }

    pub fn index(self) -> (r: usize)
        ensures
            r == self.ordinal(),
            Provider::every()[r as int] == self,
    {
        match self {
            Provider::OpenAI => 0,
            Provider::Groq => 1,
            Provider::Azure => 2,
            Provider::Ollama => 3,
            Provider::Mistral => 4,
        }
    }

    /// Every provider, in table order.
    pub fn all() -> (r: Vec<Provider>)
        ensures
            r@ == Provider::every(),
    {
        let mut r: Vec<Provider> = Vec::new();
        r.push(Provider::OpenAI);
        r.push(Provider::Groq);
        r.push(Provider::Azure);
        r.push(Provider::Ollama);
        r.push(Provider::Mistral);
        r
    }
}

/// How much a log shows; every level includes the ones before it.
#[derive(Debug, Clone, Copy, PartialEq, Eq, Structural)]
pub enum DebugLevel {
    Error,
    Warn,
    Info,
    Debug,
    Trace,
}

/// The most verbose level that a logger lets through.
#[derive(Debug, Clone, Copy, PartialEq, Eq, Structural)]
pub enum LevelFilter {
    Off,
    Error,
    Warn,
    Info,
    Debug,
    Trace,
}

impl DebugLevel {
    /// The name of the level in configuration sources.
    pub open spec fn label(self) -> Seq<char> {
        match self {
            DebugLevel::Error => "error"@,
            DebugLevel::Warn => "warn"@,
            DebugLevel::Info => "info"@,
            DebugLevel::Debug => "debug"@,
            DebugLevel::Trace => "trace"@,
        }
    }

    /// The level that a name stands for.
    pub open spec fn named(name: Seq<char>) -> Option<DebugLevel> {
        if name == "error"@ {
            Some(DebugLevel::Error)
        } else if name == "warn"@ {
            Some(DebugLevel::Warn)
        } else if name == "info"@ {
            Some(DebugLevel::Info)
        } else if name == "debug"@ {
            Some(DebugLevel::Debug)
        } else if name == "trace"@ {
            Some(DebugLevel::Trace)
        } else {
            None
        }
    }

    /// The filter that lets through this level and everything less verbose.
    pub open spec fn filter(self) -> LevelFilter {
        match self {
            DebugLevel::Error => LevelFilter::Error,
            DebugLevel::Warn => LevelFilter::Warn,
            DebugLevel::Info => LevelFilter::Info,
            DebugLevel::Debug => LevelFilter::Debug,
            DebugLevel::Trace => LevelFilter::Trace,
        }
    }

    pub fn name(self) -> (r: &'static str)
        ensures
            r@ == self.label(),
    {
        match self {
            DebugLevel::Error => "error",
            DebugLevel::Warn => "warn",
            DebugLevel::Info => "info",
            DebugLevel::Debug => "debug",
            DebugLevel::Trace => "trace",
        }
    }

    /// Reads a level from its name; names are matched exactly.
    pub fn from_name(name: &str) -> (r: Option<DebugLevel>)
        ensures
            r == DebugLevel::named(name@),
    {
        if name.eq("error") {
            Some(DebugLevel::Error)
        } else if name.eq("warn") {
            Some(DebugLevel::Warn)
        } else if name.eq("info") {
            Some(DebugLevel::Info)
        } else if name.eq("debug") {
            Some(DebugLevel::Debug)
        } else if name.eq("trace") {
            Some(DebugLevel::Trace)
        } else {
            None
        }
    }

    /// The logging filter for this level.
    pub fn to_level_filter(self) -> (r: LevelFilter)
        ensures
            r == self.filter(),
    {
        match self {
            DebugLevel::Error => LevelFilter::Error,
            DebugLevel::Warn => LevelFilter::Warn,
            DebugLevel::Info => LevelFilter::Info,
            DebugLevel::Debug => LevelFilter::Debug,
            DebugLevel::Trace => LevelFilter::Trace,
        }
    }
}

} // verus!
