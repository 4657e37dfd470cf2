use vstd::prelude::*;


use crate::text::{
    copy_string, ends_with_newline, extend_chars, starts_with_newline, string_from_chars,
};

verus! {

/// Arguments handed to a capability invocation.
#[derive(Debug, Clone, PartialEq)]
pub struct CapabilityInput {
    pub arguments: serde_json::Value,
}

impl CapabilityInput {
    pub fn new(arguments: serde_json::Value) -> (r: Self)
        ensures
            r.arguments == arguments,
    {
        Self { arguments }
    }
}

#[derive(Debug, Clone, Copy, PartialEq, Eq, Hash)]
pub enum CapabilityKind {
    Local,
    Agent { is_acp: bool },
}

#[derive(Debug, Clone, PartialEq, Eq, Hash)]
pub struct CapabilityHandle {
    pub name: String,
    pub kind: CapabilityKind,
}

impl CapabilityHandle {
    pub fn new(name: &str, kind: CapabilityKind) -> (r: Self)
        ensures
            r.name@ == name@,
            r.kind == kind,
    {
        Self { name: copy_string(name), kind }
    }
}

#[derive(Debug, Clone, Copy, PartialEq, Eq)]
pub enum CapabilityAccess {
    ReadOnly,
    ReadWrite,
    Exclusive,
}

#[derive(Debug, Clone, PartialEq, Eq)]
pub struct CapabilityClaim {
    pub resource: String,
    pub access: CapabilityAccess,
}

#[derive(Debug, Clone, Copy, PartialEq, Eq)]
pub enum ConflictPolicy {
    Compatible,
    Conflicting,
}

/// Some claim in the set asks for exclusive access.
pub open spec fn spec_has_exclusive(claims: Seq<CapabilityClaim>) -> bool {
    exists|i: int| 0 <= i < claims.len() && claims[i].access == CapabilityAccess::Exclusive
}

/// Two claims touch the same resource and not both only read it.
pub open spec fn claim_pair_conflicts(a: CapabilityClaim, b: CapabilityClaim) -> bool {
    a.resource@ == b.resource@ && !(a.access == CapabilityAccess::ReadOnly && b.access
        == CapabilityAccess::ReadOnly)
}

/// Some pair of claims, one from each side, conflicts.
pub open spec fn spec_claims_overlap(left: Seq<CapabilityClaim>, right: Seq<CapabilityClaim>) -> bool {
    exists|i: int, j: int|
        0 <= i < left.len() && 0 <= j < right.len() && claim_pair_conflicts(left[i], right[j])
}

/// Whether two claim sets may not run side by side.
pub open spec fn spec_conflicting(left: Seq<CapabilityClaim>, right: Seq<CapabilityClaim>) -> bool {
    spec_has_exclusive(left) || spec_has_exclusive(right) || spec_claims_overlap(left, right)
}

pub open spec fn spec_policy(left: Seq<CapabilityClaim>, right: Seq<CapabilityClaim>) -> ConflictPolicy {
    if spec_conflicting(left, right) {
        ConflictPolicy::Conflicting
    } else {
        ConflictPolicy::Compatible
    }
}

impl CapabilityClaim {
    pub fn conflict_policy_with(&self, other: &Self) -> (r: ConflictPolicy)
        ensures
            r == spec_policy(seq![*self], seq![*other]),
    {
        let left = [self.clone_claim()];
        let right = [other.clone_claim()];
        let r = ConflictPolicy::from_claims(&left, &right);
        assert(left@ =~= seq![*self]);
        assert(right@ =~= seq![*other]);
        r
    }

    pub fn clone_claim(&self) -> (r: Self)
        ensures
            r == *self,
    {
        CapabilityClaim { resource: self.resource.clone(), access: self.access }
    }
}

fn has_exclusive_claim(claims: &[CapabilityClaim]) -> (r: bool)
    ensures
        r == spec_has_exclusive(claims@),
{
    let mut i: usize = 0;
    while i < claims.len()
        invariant
            i <= claims@.len(),
            forall|k: int| 0 <= k < i ==> claims@[k].access != CapabilityAccess::Exclusive,
        decreases claims@.len() - i,
    {
        match claims[i].access {
            CapabilityAccess::Exclusive => return true,
            _ => {},
        }
        i += 1;
    }
    false
}

fn claim_pair_conflict(a: &CapabilityClaim, b: &CapabilityClaim) -> (r: bool)
    ensures
        r == claim_pair_conflicts(*a, *b),
{
    if a.resource == b.resource {
        match (a.access, b.access) {
            (CapabilityAccess::ReadOnly, CapabilityAccess::ReadOnly) => false,
            _ => true,
        }
    } else {
        false
    }
}

fn claims_overlap(left: &[CapabilityClaim], right: &[CapabilityClaim]) -> (r: bool)
    ensures
        r == spec_claims_overlap(left@, right@),
{
    let mut i: usize = 0;
    while i < left.len()
        invariant
            i <= left@.len(),
            forall|a: int, b: int|
                0 <= a < i && 0 <= b < right@.len() ==> !claim_pair_conflicts(left@[a], right@[b]),
        decreases left@.len() - i,
    {
        let mut j: usize = 0;
        while j < right.len()
            invariant
                i < left@.len(),
                j <= right@.len(),
                forall|a: int, b: int|
                    0 <= a < i && 0 <= b < right@.len() ==> !claim_pair_conflicts(
                        left@[a],
                        right@[b],
                    ),
                forall|b: int| 0 <= b < j ==> !claim_pair_conflicts(left@[i as int], right@[b]),
            decreases right@.len() - j,
        {
            if claim_pair_conflict(&left[i], &right[j]) {
                return true;
            }
            j += 1;
        }
        i += 1;
    }
    false
}

impl ConflictPolicy {
    pub fn is_conflicting(self) -> (r: bool)
        ensures
            r == (self == ConflictPolicy::Conflicting),
    {
        match self {
            ConflictPolicy::Conflicting => true,
            ConflictPolicy::Compatible => false,
        }
    }

    /// Two claim sets conflict when either holds an exclusive claim, or when they
    /// touch a common resource with at least one side writing it.
    pub fn from_claims(left: &[CapabilityClaim], right: &[CapabilityClaim]) -> (r: Self)
        ensures
            r == spec_policy(left@, right@),
    {
        if has_exclusive_claim(left) || has_exclusive_claim(right) {
            return ConflictPolicy::Conflicting;
        }
        if claims_overlap(left, right) {
            return ConflictPolicy::Conflicting;
        }
        ConflictPolicy::Compatible
    }
}

/// The conflict relation between claim sets is symmetric.
pub proof fn lemma_conflict_policy_symmetric(left: Seq<CapabilityClaim>, right: Seq<CapabilityClaim>)
    ensures
        spec_policy(left, right) == spec_policy(right, left),
{
    if spec_claims_overlap(left, right) {
        let (i, j) = choose|i: int, j: int|
            0 <= i < left.len() && 0 <= j < right.len() && claim_pair_conflicts(left[i], right[j]);
        assert(claim_pair_conflicts(right[j], left[i]));
    }
    if spec_claims_overlap(right, left) {
        let (i, j) = choose|i: int, j: int|
            0 <= i < right.len() && 0 <= j < left.len() && claim_pair_conflicts(right[i], left[j]);
        assert(claim_pair_conflicts(left[j], right[i]));
    }
}

/// Claim sets that only read never conflict with each other.
pub proof fn lemma_read_only_sets_compatible(left: Seq<CapabilityClaim>, right: Seq<CapabilityClaim>)
    requires
        forall|i: int| 0 <= i < left.len() ==> left[i].access == CapabilityAccess::ReadOnly,
        forall|i: int| 0 <= i < right.len() ==> right[i].access == CapabilityAccess::ReadOnly,
    ensures
        spec_policy(left, right) == ConflictPolicy::Compatible,
{
}

/// An exclusive claim conflicts with every claim set, even an empty one.
pub proof fn lemma_exclusive_conflicts_with_everything(
    left: Seq<CapabilityClaim>,
    right: Seq<CapabilityClaim>,
)
    requires
        spec_has_exclusive(left),
    ensures
        spec_policy(left, right) == ConflictPolicy::Conflicting,
        spec_policy(right, left) == ConflictPolicy::Conflicting,
{
}

#[derive(Debug, Clone, PartialEq, Eq)]
pub struct CapabilityError {
    pub message: String,
    pub code: Option<String>,
}

pub open spec fn spec_error_display(error: CapabilityError) -> Seq<char> {
    match error.code {
        Some(code) => code@ + ": "@ + error.message@,
        None => error.message@,
    }
}

impl CapabilityError {
    pub fn new(message: &str) -> (r: Self)
        ensures
            r.message@ == message@,
            r.code.is_none(),
    {
        Self { message: copy_string(message), code: None }
    }

    pub fn with_code(code: &str, message: &str) -> (r: Self)
        ensures
            r.message@ == message@,
            r.code matches Some(c) && c@ == code@,
    {
        Self { message: copy_string(message), code: Some(copy_string(code)) }
    }

    /// The user-facing rendering: `code: message`, or the bare message.
    pub fn to_display_string(&self) -> (r: String)
        ensures
            r@ == spec_error_display(*self),
    {
        match &self.code {
            Some(code) => {
                let mut buf: Vec<char> = Vec::new();
                extend_chars(&mut buf, code.as_str());
                extend_chars(&mut buf, ": ");
                extend_chars(&mut buf, self.message.as_str());
                string_from_chars(buf.as_slice())
            },
            None => copy_string(self.message.as_str()),
        }
    }

    pub fn clone_error(&self) -> (r: Self)
        ensures
            r == *self,
    {
        let code = match &self.code {
            Some(c) => Some(c.clone()),
            None => None,
        };
        CapabilityError { message: self.message.clone(), code }
    }
}

#[derive(Debug, Clone, PartialEq, Eq)]
pub enum CapabilityContentPart {
    Text { text: String },
    Resource { uri: String, mime_type: Option<String> },
}

/// How a single content part reads as text.
pub open spec fn spec_projection(part: CapabilityContentPart) -> Seq<char> {
    match part {
        CapabilityContentPart::Text { text } => text@,
        CapabilityContentPart::Resource { uri, mime_type } => match mime_type {
            Some(m) => "[resource] "@ + uri@ + " ("@ + m@ + ")"@,
            None => "[resource] "@ + uri@,
        },
    }
}

/// The text rendering of a list of content parts: a resource starts on a fresh
/// line, and text after a resource starts on a fresh line too.
pub open spec fn spec_render(parts: Seq<CapabilityContentPart>) -> Seq<char>
    decreases parts.len(),
{
    if parts.len() == 0 {
        Seq::empty()
    } else {
        let prefix = parts.drop_last();
        let out = spec_render(prefix);
        let prev_resource = prefix.len() > 0 && prefix.last() is Resource;
        match parts.last() {
            CapabilityContentPart::Text { text } => {
                if prev_resource && !ends_with_newline(out) && !starts_with_newline(text@) {
                    out.push('\n') + text@
                } else {
                    out + text@
                }
            },
            CapabilityContentPart::Resource { .. } => {
                if out.len() > 0 && !ends_with_newline(out) {
                    out.push('\n') + spec_projection(parts.last())
                } else {
                    out + spec_projection(parts.last())
                }
            },
        }
    }
}

impl CapabilityContentPart {
    pub fn text(text: &str) -> (r: Self)
        ensures
            r == (CapabilityContentPart::Text { text: r->text }),
            r->text@ == text@,
    {
        CapabilityContentPart::Text { text: copy_string(text) }
    }

    fn text_projection(&self, buf: &mut Vec<char>)
        ensures
            final(buf)@ == old(buf)@ + spec_projection(*self),
    {
        match self {
            CapabilityContentPart::Text { text } => extend_chars(buf, text.as_str()),
            CapabilityContentPart::Resource { uri, mime_type } => {
                let ghost start = buf@;
                extend_chars(buf, "[resource] ");
                extend_chars(buf, uri.as_str());
                match mime_type {
                    Some(m) => {
                        extend_chars(buf, " (");
                        extend_chars(buf, m.as_str());
                        extend_chars(buf, ")");
                        assert(buf@ =~= start + ("[resource] "@ + uri@ + " ("@ + m@ + ")"@));
                    },
                    None => {
                        assert(buf@ =~= start + ("[resource] "@ + uri@));
                    },
                }
            },
        }
    }

    pub fn clone_part(&self) -> (r: Self)
        ensures
            r == *self,
    {
        match self {
            CapabilityContentPart::Text { text } => CapabilityContentPart::Text { text: text.clone() },
            CapabilityContentPart::Resource { uri, mime_type } => CapabilityContentPart::Resource {
                uri: uri.clone(),
                mime_type: match mime_type {
                    Some(m) => Some(m.clone()),
                    None => None,
                },
            },
        }
    }
}

/// Renders content parts with the separator rules of [`spec_render`].
pub fn render_parts(parts: &[CapabilityContentPart]) -> (r: Vec<char>)
    ensures
        r@ == spec_render(parts@),
{
    let mut out: Vec<char> = Vec::new();
    let mut previous_was_resource = false;
    let mut i: usize = 0;
    while i < parts.len()
        invariant
            i <= parts@.len(),
            out@ == spec_render(parts@.take(i as int)),
            previous_was_resource == (i > 0 && parts@[i - 1] is Resource),
        decreases parts@.len() - i,
    {
        let ghost before = out@;
        assert(parts@.take(i as int + 1).drop_last() =~= parts@.take(i as int));
        let ends_nl = out.len() > 0 && out[out.len() - 1] == '\n';
        match &parts[i] {
            CapabilityContentPart::Text { text } => {
                let tchars = crate::text::chars_of(text.as_str());
                let starts_nl = tchars.len() > 0 && tchars[0] == '\n';
                if previous_was_resource && !ends_nl && !starts_nl {
                    out.push('\n');
                }
                crate::text::extend_from_chars(&mut out, tchars.as_slice());
                previous_was_resource = false;
            },
            CapabilityContentPart::Resource { .. } => {
                if out.len() > 0 && !ends_nl {
                    out.push('\n');
                }
                parts[i].text_projection(&mut out);
                previous_was_resource = true;
            },
        }
        i += 1;
    }
    assert(parts@.take(parts@.len() as int) =~= parts@);
    out
}

#[derive(Debug, Clone, PartialEq, Eq)]
pub struct CapabilityResult {
    pub content: Vec<CapabilityContentPart>,
    pub exit_code: Option<i32>,
    pub is_error: bool,
    pub output_truncated: bool,
    pub error: Option<CapabilityError>,
}

/// The text a capability result reads as: its rendered content, or the error
/// message when the content renders to nothing.
pub open spec fn spec_capability_text(r: CapabilityResult) -> Seq<char> {
    let out = spec_render(r.content@);
    if out.len() == 0 && r.error is Some {
        r.error->Some_0.message@
    } else {
        out
    }
}

impl CapabilityResult {
    pub fn success(output: &str) -> (r: Self)
        ensures
            r.content@.len() == 1,
            r.content@[0] is Text,
            r.content@[0]->text@ == output@,
            r.exit_code.is_none(),
            !r.is_error,
            !r.output_truncated,
            r.error.is_none(),
    {
        CapabilityResult {
            content: vec![CapabilityContentPart::text(output)],
            exit_code: None,
            is_error: false,
            output_truncated: false,
            error: None,
        }
    }

    pub fn failure(output: &str) -> (r: Self)
        ensures
            r.content@.len() == 1,
            r.content@[0] is Text,
            r.content@[0]->text@ == output@,
            r.exit_code.is_none(),
            r.is_error,
            !r.output_truncated,
            r.error matches Some(e) && e.message@ == output@ && e.code.is_none(),
    {
        CapabilityResult {
            content: vec![CapabilityContentPart::text(output)],
            exit_code: None,
            is_error: true,
            output_truncated: false,
            error: Some(CapabilityError::new(output)),
        }
    }

    pub fn from_error(error: CapabilityError) -> (r: Self)
        ensures
            r.content@.len() == 1,
            r.content@[0] is Text,
            r.content@[0]->text@ == error.message@,
            r.exit_code.is_none(),
            r.is_error,
            !r.output_truncated,
            r.error == Some(error),
    {
        let text = CapabilityContentPart::text(error.message.as_str());
        CapabilityResult {
            content: vec![text],
            exit_code: None,
            is_error: true,
            output_truncated: false,
            error: Some(error),
        }
    }

    pub fn text_output(&self) -> (r: String)
        ensures
            r@ == spec_capability_text(*self),
    {
        let out = render_parts(self.content.as_slice());
        if out.len() == 0 {
            match &self.error {
                Some(e) => return copy_string(e.message.as_str()),
                None => {},
            }
        }
        string_from_chars(out.as_slice())
    }
}

} // verus!
