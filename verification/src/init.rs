//! The documented example of a configuration file.

use crate::catalog::global_settings;
use crate::config::AppConfig;
use crate::catalog::global_settings_metadata;
use crate::catalog::provider_metadata;
use crate::catalog::provider_spec;
use crate::kinds::Provider;
use crate::meta::field_views;
use crate::meta::FieldMeta;
use crate::meta::FieldSpec;
use crate::meta::ProviderSpec;
use crate::hints::opt_str;
use vstd::prelude::*;

verus! {

/// The comment that describes a field: its description, and its variable
/// where it has one.
pub open spec fn description_line(f: FieldSpec) -> Seq<char> {
    match f.env_var {
        Some(v) => "# "@ + f.description + " (env: "@ + v + ")\n"@,
        None => "# "@ + f.description + "\n"@,
    }
}

/// The value that an example shows for a field: the placeholder where there
/// is one, else the default, else nothing.
pub open spec fn example_value(f: FieldSpec, placeholder: Option<Seq<char>>) -> Seq<char> {
    match placeholder {
        Some(p) => p,
        None => match f.default {
            Some(d) => d,
            None => Seq::empty(),
        },
    }
}

/// The commented-out assignment of a field.
pub open spec fn default_line(f: FieldSpec, placeholder: Option<Seq<char>>) -> Seq<char> {
    "# "@ + f.name + " = \""@ + example_value(f, placeholder) + "\"\n"@
}

/// The opening lines of the example.
pub open spec fn preamble() -> Seq<char> {
    "# Shell-AI Configuration\n# Generated by: shell-ai config init\n#\n# Configuration precedence (highest to lowest):\n#   1. CLI flags (--provider, --model, etc.)\n#   2. Environment variables\n#   3. This config file\n#   4. Built-in defaults\n\n# ===========================================================================\n# Global Settings\n# ===========================================================================\n\n"@
}

/// The lines that open the part on providers.
pub open spec fn providers_heading() -> Seq<char> {
    "# ===========================================================================\n# Provider Configurations\n# ===========================================================================\n# Uncomment and configure the provider(s) you want to use.\n\n"@
}

/// The part on the global settings among `fields`; run-time switches are
/// left out.
pub open spec fn globals_text(fields: Seq<FieldSpec>) -> Seq<char>
    decreases fields.len(),
{
    if fields.len() == 0 {
        Seq::empty()
    } else {
        let f = fields.last();
        let head = globals_text(fields.drop_last());
        if f.virtual_field {
            head
        } else {
            head + description_line(f) + default_line(f, None) + "\n"@
        }
    }
}

/// The placeholder that an example shows for a field.
pub open spec fn placeholder_for(f: FieldSpec) -> Option<Seq<char>> {
    if f.sensitive {
        Some("your-api-key-here"@)
    } else {
        None
    }
}

/// The lines of one field of a provider.
pub open spec fn field_text(f: FieldSpec) -> Seq<char> {
    description_line(f) + (if f.required {
        "# REQUIRED\n"@
    } else {
        Seq::empty()
    }) + default_line(f, placeholder_for(f)) + "\n"@
}

/// The lines of the fields `fields`.
pub open spec fn fields_text(fields: Seq<FieldSpec>) -> Seq<char>
    decreases fields.len(),
{
    if fields.len() == 0 {
        Seq::empty()
    } else {
        fields_text(fields.drop_last()) + field_text(fields.last())
    }
}

/// The section of one provider.
pub open spec fn provider_text(p: ProviderSpec) -> Seq<char> {
    "# ---------------------------------------------------------------------------\n# "@ + p.display_name + " - "@ + p.description + "\n# ---------------------------------------------------------------------------\n["@ + p.name + "]\n"@
        + fields_text(p.all_fields()) + "\n"@
}

/// The sections of the first `n` providers.
pub open spec fn providers_text(n: int) -> Seq<char>
    decreases n,
{
    if n <= 0 || n > Provider::every().len() {
        Seq::empty()
    } else {
        providers_text(n - 1) + provider_text(provider_spec(Provider::every()[n - 1]))
    }
}

/// The whole example: every setting commented out, with its description.
pub open spec fn init_text() -> Seq<char> {
    preamble() + globals_text(global_settings()) + providers_heading() + providers_text(
        Provider::every().len() as int,
    )
}

/// Appends the comment that describes `field`; see [`description_line`].
pub fn write_field_description(output: &mut String, field: &FieldMeta)
    ensures
        final(output)@ == old(output)@ + description_line(field@),
{
    output.push_str("# ");
    output.push_str(field.description);
    match field.env_var {
        Some(env_var) => {
            output.push_str(" (env: ");
            output.push_str(env_var);
            output.push_str(")\n");
        },
        None => {
            output.push_str("\n");
        },
    }
    proof {
        assert(final(output)@ =~= old(output)@ + description_line(field@));
    }
}

/// Appends the commented-out assignment of `field`; see [`default_line`].
pub fn write_field_default(output: &mut String, field: &FieldMeta, placeholder: Option<&str>)
    ensures
        final(output)@ == old(output)@ + default_line(field@, opt_str(placeholder)),
{
    let value: &str = match placeholder {
        Some(p) => p,
        None => match field.default {
            Some(d) => d,
            None => {
                proof {
                    reveal_strlit("");
                    assert(""@ =~= Seq::<char>::empty());
                }
                ""
            },
        },
    };
    output.push_str("# ");
    output.push_str(field.name);
    output.push_str(" = \"");
    output.push_str(value);
    output.push_str("\"\n");
    proof {
        assert(final(output)@ =~= old(output)@ + default_line(field@, opt_str(placeholder)));
    }
}

/// Appends the lines of one field of a provider; see [`field_text`].
fn write_field(output: &mut String, field: &FieldMeta)
    ensures
        final(output)@ == old(output)@ + field_text(field@),
{
    write_field_description(output, field);
    if field.required {
        output.push_str("# REQUIRED\n");
    }
    let placeholder = if field.sensitive {
        Some("your-api-key-here")
    } else {
        None
    };
    write_field_default(output, field, placeholder);
    output.push_str("\n");
    proof {
        assert(final(output)@ =~= old(output)@ + field_text(field@));
    }
}

/// Appends the lines of one global setting.
fn write_global(output: &mut String, field: &FieldMeta)
    ensures
        final(output)@ == old(output)@ + (description_line(field@) + default_line(field@, None)
            + "\n"@),
{
    write_field_description(output, field);
    write_field_default(output, field, None);
    output.push_str("\n");
    proof {
        assert(final(output)@ =~= old(output)@ + (description_line(field@) + default_line(
            field@,
            None,
        ) + "\n"@));
    }
}

/// Appends the section of one provider; see [`provider_text`].
fn write_provider(output: &mut String, provider: &crate::meta::ProviderMeta)
    ensures
        final(output)@ == old(output)@ + provider_text(provider@),
{
    let mut section = String::new();
    section.push_str("# ---------------------------------------------------------------------------\n# ");
    section.push_str(provider.display_name);
    section.push_str(" - ");
    section.push_str(provider.description);
    section.push_str("\n# ---------------------------------------------------------------------------\n[");
    section.push_str(provider.name);
    section.push_str("]\n");
    let fields = provider.all_fields();
    write_fields(&mut section, &fields);
    section.push_str("\n");
    proof {
        assert(section@ =~= provider_text(provider@));
    }
    output.push_str(section.as_str());
}

/// Appends the lines of the fields `fields` of a provider.
fn write_fields(output: &mut String, fields: &Vec<FieldMeta>)
    ensures
        final(output)@ == old(output)@ + fields_text(field_views(fields@)),
{
    let ghost views = field_views(fields@);
    let ghost start = output@;
    let mut i: usize = 0;
    proof {
        assert(views.take(0) =~= Seq::<FieldSpec>::empty());
        assert(output@ =~= start + fields_text(views.take(0)));
    }
    while i < fields.len()
        invariant
            i <= fields.len(),
            views == field_views(fields@),
            output@ == start + fields_text(views.take(i as int)),
        decreases fields.len() - i,
    {
        proof {
            let next = views.take(i as int + 1);
            assert(next.drop_last() =~= views.take(i as int));
            assert(next.last() == fields@[i as int]@);
        }
        let field = &fields[i];
        write_field(output, field);
        proof {
            assert(output@ =~= start + fields_text(views.take(i as int + 1)));
        }
        i = i + 1;
    }
    proof {
        assert(views.take(fields@.len() as int) =~= views);
    }
}

impl AppConfig {
    /// Writes the documented example of a configuration file; see
    /// [`init_text`].
    pub fn generate_init_config() -> (r: String)
        ensures
            r@ == init_text(),
    {
        example_config()
    }
}

/// Writes the documented example of a configuration file.
fn example_config() -> (r: String)
    ensures
        r@ == init_text(),
{
    let mut output = String::new();
    output.push_str(
        "# Shell-AI Configuration\n# Generated by: shell-ai config init\n#\n# Configuration precedence (highest to lowest):\n#   1. CLI flags (--provider, --model, etc.)\n#   2. Environment variables\n#   3. This config file\n#   4. Built-in defaults\n\n# ===========================================================================\n# Global Settings\n# ===========================================================================\n\n",
    );
    let ghost head = output@;
    let globals = global_settings_metadata();
    let ghost gviews = field_views(globals@);
    let mut i: usize = 0;
    proof {
        assert(gviews.take(0) =~= Seq::<FieldSpec>::empty());
        assert(output@ =~= head + globals_text(gviews.take(0)));
    }
    while i < globals.len()
        invariant
            i <= globals.len(),
            gviews == field_views(globals@),
            output@ == head + globals_text(gviews.take(i as int)),
        decreases globals.len() - i,
    {
        proof {
            let next = gviews.take(i as int + 1);
            assert(next.drop_last() =~= gviews.take(i as int));
            assert(next.last() == globals@[i as int]@);
        }
        let field = &globals[i];
        if !field.virtual_field {
            write_global(&mut output, field);
            proof {
                assert(output@ =~= head + globals_text(gviews.take(i as int + 1)));
            }
        }
        i = i + 1;
    }
    proof {
        assert(gviews.take(globals@.len() as int) =~= gviews);
    }
    output.push_str(
        "# ===========================================================================\n# Provider Configurations\n# ===========================================================================\n# Uncomment and configure the provider(s) you want to use.\n\n",
    );
    let ghost middle = output@;
    let providers = provider_metadata();
    let mut p: usize = 0;
    proof {
        assert(output@ =~= middle + providers_text(0));
    }
    while p < providers.len()
        invariant
            p <= providers.len(),
            providers@.len() == Provider::every().len(),
            forall|k: int|
                0 <= k < providers@.len() ==> (#[trigger] providers@[k])@ == provider_spec(
                    Provider::every()[k],
                ),
            output@ == middle + providers_text(p as int),
        decreases providers.len() - p,
    {
        let provider = &providers[p];
        write_provider(&mut output, provider);
        proof {
            assert(output@ =~= middle + providers_text(p as int + 1));
        }
        p = p + 1;
    }
    proof {
        assert(output@ =~= init_text());
    }
    output
}

} // verus!
