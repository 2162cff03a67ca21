//! What a request to the selected provider needs: where to send it, which
//! model to ask for, and which headers to send along.

use crate::config::text_or;
use crate::config::ConfigSpec;
use crate::decode::copy_text;
use crate::decode::CredsSpec;
use crate::kinds::Provider;
use crate::layers::opt_view;
use crate::text::contains_text;
use crate::text::has_part;
use crate::text::owned;
use crate::text::trim_trailing_slashes;
use crate::text::without_trailing_slashes;
use crate::validate::ValidatedConfig;
use vstd::prelude::*;

verus! {

/// The settings of a request to a provider.
#[derive(Debug, PartialEq, Eq)]
pub struct ProviderConfig {
    pub base_url: String,
    pub model: String,
    pub api_key: Option<String>,
    /// The sampling temperature, as the text of the number.
    pub temperature: String,
    /// Headers to send along, each a name and a value.
    pub extra_headers: Vec<(String, String)>,
    /// The token limit; the provider decides where it is absent.
    pub max_tokens: Option<u32>,
}

/// The mathematical value of a [`ProviderConfig`].
pub ghost struct RequestSpec {
    pub base_url: Seq<char>,
    pub model: Seq<char>,
    pub api_key: Option<Seq<char>>,
    pub temperature: Seq<char>,
    pub extra_headers: Seq<(Seq<char>, Seq<char>)>,
    pub max_tokens: Option<u32>,
}

/// The views of a list of headers.
pub open spec fn header_views(headers: Seq<(String, String)>) -> Seq<(Seq<char>, Seq<char>)> {
    headers.map_values(|h: (String, String)| (h.0@, h.1@))
}

impl View for ProviderConfig {
    type V = RequestSpec;

    open spec fn view(&self) -> RequestSpec {
        RequestSpec {
            base_url: self.base_url@,
            model: self.model@,
            api_key: opt_view(self.api_key),
            temperature: self.temperature@,
            extra_headers: header_views(self.extra_headers@),
            max_tokens: self.max_tokens,
        }
    }
}

/// The address of an Azure deployment.
pub open spec fn azure_url(base: Seq<char>, deployment: Seq<char>, api_version: Seq<char>) -> Seq<
    char,
> {
    without_trailing_slashes(base) + "/openai/deployments/"@ + deployment
        + "/chat/completions?api-version="@ + api_version
}

/// The base address of a provider other than Azure where none is given.
pub open spec fn fallback_base(p: Provider) -> Seq<char> {
    match p {
        Provider::OpenAI => "https://api.openai.com"@,
        Provider::Groq => "https://api.groq.com/openai"@,
        Provider::Azure => ""@,
        Provider::Ollama => "http://localhost:11434"@,
        Provider::Mistral => "https://api.mistral.ai"@,
    }
}

/// The first of two optional texts that is there.
pub open spec fn or_else(a: Option<Seq<char>>, b: Option<Seq<char>>) -> Option<Seq<char>> {
    match a {
        Some(x) => Some(x),
        None => b,
    }
}

/// The settings of a request to the provider `p` with the settings `creds`
/// under the configuration `c`. Azure is addressed by its deployment, has no
/// model, may borrow the key of OpenAI, and sends its key in a header of its
/// own. OpenAI sends its organization along where one is given. Ollama gets
/// a key for form's sake.
pub open spec fn request_for(c: ConfigSpec, p: Provider, creds: CredsSpec) -> RequestSpec {
    match p {
        Provider::Azure => {
            let api_key = or_else(creds.api_key, c.creds(Provider::OpenAI).api_key);
            RequestSpec {
                base_url: azure_url(
                    text_or(creds.api_base, Seq::empty()),
                    text_or(creds.deployment_name, Seq::empty()),
                    text_or(creds.api_version, "2023-05-15"@),
                ),
                model: Seq::empty(),
                api_key,
                temperature: c.temperature.value,
                extra_headers: seq![("api-key"@, text_or(api_key, Seq::empty()))],
                max_tokens: c.effective_max_tokens(),
            }
        },
        _ => RequestSpec {
            base_url: text_or(creds.api_base, fallback_base(p)),
            model: c.effective_model(),
            api_key: if p == Provider::Ollama {
                Some("ollama"@)
            } else {
                creds.api_key
            },
            temperature: c.temperature.value,
            extra_headers: match creds.organization {
                Some(org) if p == Provider::OpenAI => seq![("OpenAI-Organization"@, org)],
                _ => Seq::empty(),
            },
            max_tokens: c.effective_max_tokens(),
        },
    }
}

/// The address for chat completions under a base address: the base itself
/// where it names the endpoint already, else the base without slashes at its
/// end and the path of the endpoint.
pub open spec fn completions_url(base: Seq<char>) -> Seq<char> {
    if has_part(base, "/chat/completions"@) {
        base
    } else {
        without_trailing_slashes(base) + "/v1/chat/completions"@
    }
}

fn text_or_default(o: &Option<String>, fallback: &str) -> (r: String)
    ensures
        r@ == text_or(opt_view(*o), fallback@),
{
    match o {
        Some(s) => s.clone(),
        None => owned(fallback),
    }
}

impl ProviderConfig {
    /// The settings of a request under a validated configuration; see
    /// [`request_for`].
    pub fn from_validated(validated: &ValidatedConfig) -> (r: Self)
        ensures
            r@ == request_for(validated.app()@, validated.selected(), validated.creds()),
    {
        let config = validated.app_config();
        let temperature = owned(validated.temperature());
        let max_tokens = validated.effective_max_tokens();
        let provider = validated.selected_provider();
        let creds = validated.selected_credentials();
        match provider {
            Provider::OpenAI => {
                let mut extra_headers: Vec<(String, String)> = Vec::new();
                match &creds.organization {
                    Some(org) => {
                        extra_headers.push((owned("OpenAI-Organization"), org.clone()));
                        proof {
                            assert(header_views(extra_headers@) =~= seq![
                                ("OpenAI-Organization"@, org@),
                            ]);
                        }
                    },
                    None => {
                        proof {
                            assert(header_views(extra_headers@) =~= Seq::empty());
                        }
                    },
                }
                ProviderConfig {
                    base_url: text_or_default(&creds.api_base, "https://api.openai.com"),
                    model: validated.effective_model(),
                    api_key: copy_text(&creds.api_key),
                    temperature,
                    extra_headers,
                    max_tokens,
                }
            },
            Provider::Azure => {
                proof {
                    reveal_strlit("");
                    assert(""@ =~= Seq::<char>::empty());
                }
                let base = text_or_default(&creds.api_base, "");
                let deployment = text_or_default(&creds.deployment_name, "");
                let api_version = text_or_default(&creds.api_version, "2023-05-15");
                let api_key = match &creds.api_key {
                    Some(k) => Some(k.clone()),
                    None => match config.get_credentials_for(&Provider::OpenAI) {
                        Some(c) => copy_text(&c.api_key),
                        None => None,
                    },
                };
                let mut url = trim_trailing_slashes(base.as_str());
                url.push_str("/openai/deployments/");
                url.push_str(deployment.as_str());
                url.push_str("/chat/completions?api-version=");
                url.push_str(api_version.as_str());
                let header_val = text_or_default(&api_key, "");
                let mut extra_headers: Vec<(String, String)> = Vec::new();
                extra_headers.push((owned("api-key"), header_val));
                proof {
                    assert(header_views(extra_headers@) =~= seq![
                        ("api-key"@, text_or(opt_view(api_key), Seq::empty())),
                    ]);
                }
                ProviderConfig {
                    base_url: url,
                    model: String::new(),
                    api_key,
                    temperature,
                    extra_headers,
                    max_tokens,
                }
            },
            Provider::Ollama => {
                let extra_headers: Vec<(String, String)> = Vec::new();
                proof {
                    assert(header_views(extra_headers@) =~= Seq::empty());
                }
                ProviderConfig {
                    base_url: text_or_default(&creds.api_base, "http://localhost:11434"),
                    model: validated.effective_model(),
                    api_key: Some(owned("ollama")),
                    temperature,
                    extra_headers,
                    max_tokens,
                }
            },
            Provider::Mistral => {
                let extra_headers: Vec<(String, String)> = Vec::new();
                proof {
                    assert(header_views(extra_headers@) =~= Seq::empty());
                }
                ProviderConfig {
                    base_url: text_or_default(&creds.api_base, "https://api.mistral.ai"),
                    model: validated.effective_model(),
                    api_key: copy_text(&creds.api_key),
                    temperature,
                    extra_headers,
                    max_tokens,
                }
            },
            Provider::Groq => {
                let extra_headers: Vec<(String, String)> = Vec::new();
                proof {
                    assert(header_views(extra_headers@) =~= Seq::empty());
                }
                ProviderConfig {
                    base_url: text_or_default(&creds.api_base, "https://api.groq.com/openai"),
                    model: validated.effective_model(),
                    api_key: copy_text(&creds.api_key),
                    temperature,
                    extra_headers,
                    max_tokens,
                }
            },
        }
    }

    /// The address for chat completions; see [`completions_url`].
    pub fn chat_completions_url(&self) -> (r: String)
        ensures
            r@ == completions_url(self@.base_url),
    {
        if contains_text(self.base_url.as_str(), "/chat/completions") {
            self.base_url.clone()
        } else {
            let mut r = trim_trailing_slashes(self.base_url.as_str());
            r.push_str("/v1/chat/completions");
            r
        }
    }

    /// The extra headers as borrowed names and values.
    pub fn extra_headers_ref(&self) -> (r: Vec<(&str, &str)>)
        ensures
            r@.len() == self.extra_headers@.len(),
            forall|i: int|
                0 <= i < r@.len() ==> (#[trigger] r@[i]).0@ == self.extra_headers@[i].0@ && r@[i].1@
                    == self.extra_headers@[i].1@,
    {
        let mut out: Vec<(&str, &str)> = Vec::new();
        let mut i: usize = 0;
        while i < self.extra_headers.len()
            invariant
                i <= self.extra_headers.len(),
                out@.len() == i,
                forall|j: int|
                    0 <= j < i ==> (#[trigger] out@[j]).0@ == self.extra_headers@[j].0@
                        && out@[j].1@ == self.extra_headers@[j].1@,
            decreases self.extra_headers.len() - i,
        {
            out.push((self.extra_headers[i].0.as_str(), self.extra_headers[i].1.as_str()));
            i = i + 1;
        }
        out
    }
}

} // verus!
