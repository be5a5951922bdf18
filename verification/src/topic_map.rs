//! Kafka <-> jrow topic name mapping via simple `{topic}` templates.

use vstd::prelude::*;
use vstd::string::*;

use crate::error::{GatewayError, Result};
use crate::text::{
    contains, contains_text, lemma_replace_absent, lemma_replace_by_itself,
    lemma_replace_first_occurrence, replace_all, replace_text,
};

verus! {

/// The placeholder that a template must contain.
pub const PLACEHOLDER: &'static str = "{topic}";

/// The characters of the placeholder `{topic}`.
pub open spec fn placeholder() -> Seq<char> {
    seq!['{', 't', 'o', 'p', 'i', 'c', '}']
}

/// Message of the error returned for a template without the placeholder.
pub open spec fn missing_placeholder_message(template: Seq<char>) -> Seq<char> {
    "template '"@ + template + "' must contain the '"@ + placeholder() + "' placeholder"@
}

/// The rendering of `template` for `topic`: every placeholder replaced by `topic`.
pub open spec fn rendered(template: Seq<char>, topic: Seq<char>) -> Seq<char> {
    replace_all(template, placeholder(), topic)
}

pub proof fn lemma_placeholder_const()
    ensures
        PLACEHOLDER@ == placeholder(),
{
    reveal_strlit("{topic}");
    assert(PLACEHOLDER@ =~= placeholder());
}

/// A topic name template containing a literal `{topic}` placeholder.
///
/// Used in both directions:
/// - Kafka -> jrow: `{topic}` is replaced with the consumed Kafka topic name.
/// - jrow -> Kafka: `{topic}` is replaced with the jrow topic delivered in the
///   persistent message envelope.
#[derive(Debug)]
pub struct TopicTemplate {
    template: String,
}

impl View for TopicTemplate {
    type V = Seq<char>;

    closed spec fn view(&self) -> Seq<char> {
        self.template@
    }
}

impl Clone for TopicTemplate {
    fn clone(&self) -> (r: Self)
        ensures
            r@ == self@,
    {
        proof {
            use_type_invariant(self);
        }
        TopicTemplate { template: self.template.clone() }
    }
}

impl TopicTemplate {
    #[verifier::type_invariant]
    spec fn holds_placeholder(&self) -> bool {
        contains_text(self.template@, placeholder())
    }

    /// Create a new template, validating that it contains the `{topic}` placeholder
    pub fn new(template: &str) -> (r: Result<TopicTemplate>)
        ensures
            r is Ok <==> contains_text(template@, placeholder()),
            r matches Ok(t) ==> t@ == template@,
            r matches Err(e) ==> e matches GatewayError::TopicMapping(m) && m@
                == missing_placeholder_message(template@),
    {
        proof {
            lemma_placeholder_const();
        }
        if !contains(template, PLACEHOLDER) {
            let msg = String::from_str("template '").concat(template).concat(
                "' must contain the '",
            ).concat(PLACEHOLDER).concat("' placeholder");
            return Err(GatewayError::TopicMapping(msg));
        }
        Ok(TopicTemplate { template: String::from_str(template) })
    }

    /// Render the template by substituting the placeholder with `topic`
    pub fn render(&self, topic: &str) -> (res: String)
        ensures
            res@ == rendered(self@, topic@),
    {
        proof {
            lemma_placeholder_const();
        }
        replace_text(self.template.as_str(), PLACEHOLDER, topic)
    }

    /// The raw template string
    pub fn as_str(&self) -> (s: &str)
        ensures
            s@ == self@,
            contains_text(s@, placeholder()),
    {
        proof {
            use_type_invariant(self);
        }
        self.template.as_str()
    }
}


/// Rendering a template with the placeholder itself as the topic gives back
/// the template.
pub proof fn law_render_with_placeholder_is_identity(template: Seq<char>)
    ensures
        rendered(template, placeholder()) == template,
{
    lemma_replace_by_itself(template, placeholder());
}

/// The text before the first placeholder is kept as it is, the placeholder
/// becomes the topic, and the rest of the template is rendered the same way.
pub proof fn law_render_first_placeholder(prefix: Seq<char>, suffix: Seq<char>, topic: Seq<char>)
    requires
        !contains_text(prefix, placeholder()),
    ensures
        rendered(prefix + placeholder() + suffix, topic) == prefix + topic + rendered(
            suffix,
            topic,
        ),
{
    let p = placeholder();
    assert forall|k: int| 0 < k < p.len() implies #[trigger] p[k] != p[0] by {}
    lemma_replace_first_occurrence(prefix, p, suffix, topic);
}

/// A template with exactly one placeholder, `prefix{topic}suffix`, renders
/// to `prefix`, the topic and `suffix`.
pub proof fn law_render_single_placeholder(prefix: Seq<char>, suffix: Seq<char>, topic: Seq<char>)
    requires
        !contains_text(prefix, placeholder()),
        !contains_text(suffix, placeholder()),
    ensures
        rendered(prefix + placeholder() + suffix, topic) == prefix + topic + suffix,
{
    law_render_first_placeholder(prefix, suffix, topic);
    lemma_replace_absent(suffix, placeholder(), topic);
}

} // verus!
