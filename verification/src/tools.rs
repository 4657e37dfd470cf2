use vstd::prelude::*;

use crate::capability::{
    spec_render, CapabilityAccess, CapabilityClaim, CapabilityContentPart, CapabilityError,
    CapabilityKind, CapabilityResult, render_parts,
};
use crate::text::{copy_string, string_from_chars};

verus! {

#[derive(Debug, Clone, Copy, PartialEq, Eq)]
pub enum ToolKind {
    Local,
    Agent { is_acp: bool },
}

pub open spec fn spec_capability_kind(kind: ToolKind) -> CapabilityKind {
    match kind {
        ToolKind::Local => CapabilityKind::Local,
        ToolKind::Agent { is_acp } => CapabilityKind::Agent { is_acp },
    }
}

pub open spec fn spec_tool_kind(kind: CapabilityKind) -> ToolKind {
    match kind {
        CapabilityKind::Local => ToolKind::Local,
        CapabilityKind::Agent { is_acp } => ToolKind::Agent { is_acp },
    }
}

impl ToolKind {
    pub fn into_capability_kind(self) -> (r: CapabilityKind)
        ensures
            r == spec_capability_kind(self),
    {
        match self {
            ToolKind::Local => CapabilityKind::Local,
            ToolKind::Agent { is_acp } => CapabilityKind::Agent { is_acp },
        }
    }

    pub fn from_capability_kind(kind: CapabilityKind) -> (r: ToolKind)
        ensures
            r == spec_tool_kind(kind),
    {
        match kind {
            CapabilityKind::Local => ToolKind::Local,
            CapabilityKind::Agent { is_acp } => ToolKind::Agent { is_acp },
        }
    }
}

impl From<ToolKind> for CapabilityKind {
    fn from(value: ToolKind) -> (r: Self) {
        value.into_capability_kind()
    }
}

impl vstd::std_specs::convert::FromSpecImpl<ToolKind> for CapabilityKind {
    open spec fn obeys_from_spec() -> bool {
        true
    }

    open spec fn from_spec(v: ToolKind) -> Self {
        spec_capability_kind(v)
    }
}

impl From<CapabilityKind> for ToolKind {
    fn from(value: CapabilityKind) -> (r: Self) {
        ToolKind::from_capability_kind(value)
    }
}

impl vstd::std_specs::convert::FromSpecImpl<CapabilityKind> for ToolKind {
    open spec fn obeys_from_spec() -> bool {
        true
    }

    open spec fn from_spec(v: CapabilityKind) -> Self {
        spec_tool_kind(v)
    }
}

/// Converting a kind to the capability side and back gives the kind unchanged, both ways round.
pub proof fn lemma_kind_round_trip(k: ToolKind, c: CapabilityKind)
    ensures
        spec_tool_kind(spec_capability_kind(k)) == k,
        spec_capability_kind(spec_tool_kind(c)) == c,
{
}

#[derive(Debug, Clone, Copy, PartialEq, Eq)]
pub enum ResourceAccess {
    ReadOnly,
    ReadWrite,
    Exclusive,
}

pub open spec fn spec_capability_access(a: ResourceAccess) -> CapabilityAccess {
    match a {
        ResourceAccess::ReadOnly => CapabilityAccess::ReadOnly,
        ResourceAccess::ReadWrite => CapabilityAccess::ReadWrite,
        ResourceAccess::Exclusive => CapabilityAccess::Exclusive,
    }
}

pub open spec fn spec_resource_access(a: CapabilityAccess) -> ResourceAccess {
    match a {
        CapabilityAccess::ReadOnly => ResourceAccess::ReadOnly,
        CapabilityAccess::ReadWrite => ResourceAccess::ReadWrite,
        CapabilityAccess::Exclusive => ResourceAccess::Exclusive,
    }
}

fn to_capability_access(a: ResourceAccess) -> (r: CapabilityAccess)
    ensures
        r == spec_capability_access(a),
{
    match a {
        ResourceAccess::ReadOnly => CapabilityAccess::ReadOnly,
        ResourceAccess::ReadWrite => CapabilityAccess::ReadWrite,
        ResourceAccess::Exclusive => CapabilityAccess::Exclusive,
    }
}

fn to_resource_access(a: CapabilityAccess) -> (r: ResourceAccess)
    ensures
        r == spec_resource_access(a),
{
    match a {
        CapabilityAccess::ReadOnly => ResourceAccess::ReadOnly,
        CapabilityAccess::ReadWrite => ResourceAccess::ReadWrite,
        CapabilityAccess::Exclusive => ResourceAccess::Exclusive,
    }
}

impl From<ResourceAccess> for CapabilityAccess {
    fn from(value: ResourceAccess) -> (r: Self) {
        to_capability_access(value)
    }
}

impl vstd::std_specs::convert::FromSpecImpl<ResourceAccess> for CapabilityAccess {
    open spec fn obeys_from_spec() -> bool {
        true
    }

    open spec fn from_spec(v: ResourceAccess) -> Self {
        spec_capability_access(v)
    }
}

impl From<CapabilityAccess> for ResourceAccess {
    fn from(value: CapabilityAccess) -> (r: Self) {
        to_resource_access(value)
    }
}

impl vstd::std_specs::convert::FromSpecImpl<CapabilityAccess> for ResourceAccess {
    open spec fn obeys_from_spec() -> bool {
        true
    }

    open spec fn from_spec(v: CapabilityAccess) -> Self {
        spec_resource_access(v)
    }
}

#[derive(Debug, Clone, PartialEq, Eq)]
pub struct ResourceClaim {
    pub resource: String,
    pub access: ResourceAccess,
}

pub open spec fn spec_capability_claim(c: ResourceClaim) -> CapabilityClaim {
    CapabilityClaim { resource: c.resource, access: spec_capability_access(c.access) }
}

pub open spec fn spec_resource_claim(c: CapabilityClaim) -> ResourceClaim {
    ResourceClaim { resource: c.resource, access: spec_resource_access(c.access) }
}

impl ResourceClaim {
    pub fn into_capability_claim(self) -> (r: CapabilityClaim)
        ensures
            r == spec_capability_claim(self),
    {
        CapabilityClaim { resource: self.resource, access: to_capability_access(self.access) }
    }

    pub fn from_capability_claim(c: CapabilityClaim) -> (r: ResourceClaim)
        ensures
            r == spec_resource_claim(c),
    {
        ResourceClaim { resource: c.resource, access: to_resource_access(c.access) }
    }
}

impl From<ResourceClaim> for CapabilityClaim {
    fn from(value: ResourceClaim) -> (r: Self) {
        value.into_capability_claim()
    }
}

impl vstd::std_specs::convert::FromSpecImpl<ResourceClaim> for CapabilityClaim {
    open spec fn obeys_from_spec() -> bool {
        true
    }

    open spec fn from_spec(v: ResourceClaim) -> Self {
        spec_capability_claim(v)
    }
}

impl From<CapabilityClaim> for ResourceClaim {
    fn from(value: CapabilityClaim) -> (r: Self) {
        ResourceClaim::from_capability_claim(value)
    }
}

impl vstd::std_specs::convert::FromSpecImpl<CapabilityClaim> for ResourceClaim {
    open spec fn obeys_from_spec() -> bool {
        true
    }

    open spec fn from_spec(v: CapabilityClaim) -> Self {
        spec_resource_claim(v)
    }
}

/// Claims convert to the capability side and back unchanged, both ways round.
pub proof fn lemma_claim_round_trip(r: ResourceClaim, c: CapabilityClaim)
    ensures
        spec_resource_claim(spec_capability_claim(r)) == r,
        spec_capability_claim(spec_resource_claim(c)) == c,
{
}

#[derive(Debug, Clone, PartialEq, Eq)]
pub enum ContentPart {
    Text { text: String },
    Resource { uri: String, mime_type: Option<String> },
}

pub open spec fn spec_cap_part(p: ContentPart) -> CapabilityContentPart {
    match p {
        ContentPart::Text { text } => CapabilityContentPart::Text { text },
        ContentPart::Resource { uri, mime_type } => CapabilityContentPart::Resource { uri, mime_type },
    }
}

pub open spec fn spec_tool_part(p: CapabilityContentPart) -> ContentPart {
    match p {
        CapabilityContentPart::Text { text } => ContentPart::Text { text },
        CapabilityContentPart::Resource { uri, mime_type } => ContentPart::Resource { uri, mime_type },
    }
}

pub open spec fn spec_cap_parts(parts: Seq<ContentPart>) -> Seq<CapabilityContentPart> {
    parts.map_values(|p: ContentPart| spec_cap_part(p))
}

pub open spec fn spec_tool_parts(parts: Seq<CapabilityContentPart>) -> Seq<ContentPart> {
    parts.map_values(|p: CapabilityContentPart| spec_tool_part(p))
}

impl ContentPart {
    pub fn text(text: &str) -> (r: Self)
        ensures
            r == (ContentPart::Text { text: r->text }),
            r->text@ == text@,
    {
        ContentPart::Text { text: copy_string(text) }
    }

    pub fn into_capability_part(self) -> (r: CapabilityContentPart)
        ensures
            r == spec_cap_part(self),
    {
        match self {
            ContentPart::Text { text } => CapabilityContentPart::Text { text },
            ContentPart::Resource { uri, mime_type } => CapabilityContentPart::Resource { uri, mime_type },
        }
    }

    pub fn from_capability_part(p: CapabilityContentPart) -> (r: ContentPart)
        ensures
            r == spec_tool_part(p),
    {
        match p {
            CapabilityContentPart::Text { text } => ContentPart::Text { text },
            CapabilityContentPart::Resource { uri, mime_type } => ContentPart::Resource { uri, mime_type },
        }
    }
}

impl From<ContentPart> for CapabilityContentPart {
    fn from(value: ContentPart) -> (r: Self) {
        value.into_capability_part()
    }
}

impl vstd::std_specs::convert::FromSpecImpl<ContentPart> for CapabilityContentPart {
    open spec fn obeys_from_spec() -> bool {
        true
    }

    open spec fn from_spec(v: ContentPart) -> Self {
        spec_cap_part(v)
    }
}

impl From<CapabilityContentPart> for ContentPart {
    fn from(value: CapabilityContentPart) -> (r: Self) {
        ContentPart::from_capability_part(value)
    }
}

impl vstd::std_specs::convert::FromSpecImpl<CapabilityContentPart> for ContentPart {
    open spec fn obeys_from_spec() -> bool {
        true
    }

    open spec fn from_spec(v: CapabilityContentPart) -> Self {
        spec_tool_part(v)
    }
}

/// Canonical tool execution payload returned to the runtime.
#[derive(Debug, Clone, PartialEq, Eq)]
pub struct ToolResult {
    pub content: Vec<ContentPart>,
    pub exit_code: Option<i32>,
    pub is_error: bool,
    pub output_truncated: bool,
}

/// The text a tool result reads as; it renders exactly as the same parts do on
/// the capability side.
pub open spec fn spec_tool_text(t: ToolResult) -> Seq<char> {
    spec_render(spec_cap_parts(t.content@))
}

/// `c` is what converting `t` to a capability result gives.
pub open spec fn is_capability_projection(t: ToolResult, c: CapabilityResult) -> bool {
    &&& c.content@ == spec_cap_parts(t.content@)
    &&& c.exit_code == t.exit_code
    &&& c.is_error == t.is_error
    &&& c.output_truncated == t.output_truncated
    &&& if t.is_error {
        c.error matches Some(e) && e.code.is_none() && e.message@ == spec_tool_text(t)
    } else {
        c.error.is_none()
    }
}

/// `t` is what converting the capability result `c` to a tool result gives.
pub open spec fn is_tool_projection(c: CapabilityResult, t: ToolResult) -> bool {
    &&& if c.content@.len() == 0 && c.error is Some {
        t.content@.len() == 1 && t.content@[0] is Text && t.content@[0]->text@
            == c.error->Some_0.message@
    } else {
        t.content@ == spec_tool_parts(c.content@)
    }
    &&& t.exit_code == c.exit_code
    &&& t.is_error == (c.is_error || c.error is Some)
    &&& t.output_truncated == c.output_truncated
}

impl ToolResult {
    /// Builds a successful tool result with plain-text output.
    pub fn success(output: &str) -> (r: Self)
        ensures
            r.content@.len() == 1,
            r.content@[0] is Text,
            r.content@[0]->text@ == output@,
            r.exit_code.is_none(),
            !r.is_error,
            !r.output_truncated,
    {
        ToolResult {
            content: vec![ContentPart::text(output)],
            exit_code: None,
            is_error: false,
            output_truncated: false,
        }
    }

    /// Builds an error tool result without attaching an OS exit code.
    pub fn failure(output: &str) -> (r: Self)
        ensures
            r.content@.len() == 1,
            r.content@[0] is Text,
            r.content@[0]->text@ == output@,
            r.exit_code.is_none(),
            r.is_error,
            !r.output_truncated,
    {
        ToolResult {
            content: vec![ContentPart::text(output)],
            exit_code: None,
            is_error: true,
            output_truncated: false,
        }
    }

    fn capability_parts(&self) -> (r: Vec<CapabilityContentPart>)
        ensures
            r@ == spec_cap_parts(self.content@),
    {
        let mut out: Vec<CapabilityContentPart> = Vec::new();
        let mut i: usize = 0;
        while i < self.content.len()
            invariant
                i <= self.content@.len(),
                out@ == spec_cap_parts(self.content@.take(i as int)),
            decreases self.content@.len() - i,
        {
            let part = clone_tool_part(&self.content[i]).into_capability_part();
            out.push(part);
            assert(spec_cap_parts(self.content@.take(i as int + 1)) =~= spec_cap_parts(
                self.content@.take(i as int),
            ).push(spec_cap_part(self.content@[i as int])));
            i += 1;
        }
        assert(self.content@.take(self.content@.len() as int) =~= self.content@);
        out
    }

    pub fn text_output(&self) -> (r: String)
        ensures
            r@ == spec_tool_text(*self),
    {
        let parts = self.capability_parts();
        let out = render_parts(parts.as_slice());
        string_from_chars(out.as_slice())
    }

    pub fn into_capability_result(self) -> (r: CapabilityResult)
        ensures
            is_capability_projection(self, r),
    {
        let error = if self.is_error {
            let text = self.text_output();
            Some(CapabilityError::new(text.as_str()))
        } else {
            None
        };
        let content = self.capability_parts();
        CapabilityResult {
            content,
            exit_code: self.exit_code,
            is_error: self.is_error,
            output_truncated: self.output_truncated,
            error,
        }
    }

    pub fn from_capability_result(result: CapabilityResult) -> (r: Self)
        ensures
            is_tool_projection(result, r),
    {
        let mut projected: Vec<ContentPart> = Vec::new();
        let mut i: usize = 0;
        while i < result.content.len()
            invariant
                i <= result.content@.len(),
                projected@ == spec_tool_parts(result.content@.take(i as int)),
            decreases result.content@.len() - i,
        {
            let part = ContentPart::from_capability_part(result.content[i].clone_part());
            projected.push(part);
            assert(spec_tool_parts(result.content@.take(i as int + 1)) =~= spec_tool_parts(
                result.content@.take(i as int),
            ).push(spec_tool_part(result.content@[i as int])));
            i += 1;
        }
        assert(result.content@.take(result.content@.len() as int) =~= result.content@);
        if projected.len() == 0 {
            match &result.error {
                Some(e) => {
                    projected.push(ContentPart::text(e.message.as_str()));
                },
                None => {},
            }
        }
        let has_error = match &result.error {
            Some(_) => true,
            None => false,
        };
        ToolResult {
            content: projected,
            exit_code: result.exit_code,
            is_error: result.is_error || has_error,
            output_truncated: result.output_truncated,
        }
    }
}

fn clone_tool_part(p: &ContentPart) -> (r: ContentPart)
    ensures
        r == *p,
{
    match p {
        ContentPart::Text { text } => ContentPart::Text { text: text.clone() },
        ContentPart::Resource { uri, mime_type } => ContentPart::Resource {
            uri: uri.clone(),
            mime_type: match mime_type {
                Some(m) => Some(m.clone()),
                None => None,
            },
        },
    }
}

impl From<ToolResult> for CapabilityResult {
    fn from(value: ToolResult) -> (r: Self) {
        value.into_capability_result()
    }
}

impl vstd::std_specs::convert::FromSpecImpl<ToolResult> for CapabilityResult {
    open spec fn obeys_from_spec() -> bool {
        false
    }

    open spec fn from_spec(v: ToolResult) -> Self {
        arbitrary()
    }
}

impl From<CapabilityResult> for ToolResult {
    fn from(value: CapabilityResult) -> (r: Self) {
        ToolResult::from_capability_result(value)
    }
}

impl vstd::std_specs::convert::FromSpecImpl<CapabilityResult> for ToolResult {
    open spec fn obeys_from_spec() -> bool {
        false
    }

    open spec fn from_spec(v: CapabilityResult) -> Self {
        arbitrary()
    }
}

/// Converting a tool result to a capability result keeps its text output.
pub proof fn lemma_capability_projection_keeps_text(t: ToolResult, c: CapabilityResult)
    requires
        is_capability_projection(t, c),
    ensures
        crate::capability::spec_capability_text(c) == spec_tool_text(t),
{
}

/// Converting a capability result to a tool result keeps its text output, unless
/// the content renders to nothing while an error message stands beside it.
pub proof fn lemma_tool_projection_keeps_text(c: CapabilityResult, t: ToolResult)
    requires
        is_tool_projection(c, t),
        !(c.content@.len() > 0 && spec_render(c.content@).len() == 0 && c.error is Some),
    ensures
        spec_tool_text(t) == crate::capability::spec_capability_text(c),
{
    if c.content@.len() == 0 && c.error is Some {
        let parts = spec_cap_parts(t.content@);
        assert(parts.len() == 1);
        assert(parts[0] == spec_cap_part(t.content@[0]));
        assert(parts.drop_last() =~= Seq::<CapabilityContentPart>::empty());
        assert(spec_render(parts.drop_last()) =~= Seq::<char>::empty());
        assert(spec_render(parts) =~= c.error->Some_0.message@);
    } else {
        assert(spec_cap_parts(spec_tool_parts(c.content@)) =~= c.content@);
    }
}

/// A tool result converted to a capability result and back is unchanged, except
/// for an error result with no content, which comes back with one empty text part.
pub proof fn lemma_tool_result_round_trip(t: ToolResult, c: CapabilityResult, back: ToolResult)
    requires
        is_capability_projection(t, c),
        is_tool_projection(c, back),
        !(t.is_error && t.content@.len() == 0),
    ensures
        back.content@ == t.content@,
        back.exit_code == t.exit_code,
        back.is_error == t.is_error,
        back.output_truncated == t.output_truncated,
{
    assert(spec_tool_parts(spec_cap_parts(t.content@)) =~= t.content@);
}

/// Path components that a Unix path splits into at each `/`; an empty path is
/// one empty component.
pub open spec fn spec_split_slash(s: Seq<char>) -> Seq<Seq<char>>
    decreases s.len(),
{
    if s.len() == 0 {
        seq![Seq::<char>::empty()]
    } else {
        let p = spec_split_slash(s.drop_last());
        if s.last() == '/' {
            p.push(Seq::<char>::empty())
        } else {
            p.update(p.len() - 1, p.last().push(s.last()))
        }
    }
}

pub proof fn lemma_split_nonempty(s: Seq<char>)
    ensures
        spec_split_slash(s).len() >= 1,
    decreases s.len(),
{
    if s.len() > 0 {
        lemma_split_nonempty(s.drop_last());
    }
}

/// A component that names something: neither empty nor `.`.
pub open spec fn is_named_component(seg: Seq<char>) -> bool {
    seg.len() > 0 && seg != seq!['.']
}

/// The components that name something, in order.
pub open spec fn spec_named(parts: Seq<Seq<char>>) -> Seq<Seq<char>>
    decreases parts.len(),
{
    if parts.len() == 0 {
        Seq::empty()
    } else {
        let k = spec_named(parts.drop_last());
        if is_named_component(parts.last()) {
            k.push(parts.last())
        } else {
            k
        }
    }
}

/// Components joined by `/`.
pub open spec fn spec_join_slash(parts: Seq<Seq<char>>) -> Seq<char>
    decreases parts.len(),
{
    if parts.len() == 0 {
        Seq::empty()
    } else if parts.len() == 1 {
        parts[0]
    } else {
        spec_join_slash(parts.drop_last()).push('/') + parts.last()
    }
}

pub open spec fn spec_is_absolute(s: Seq<char>) -> bool {
    s.len() > 0 && s[0] == '/'
}

pub open spec fn spec_has_parent_component(s: Seq<char>) -> bool {
    spec_split_slash(s).contains(seq!['.', '.'])
}

/// What validating a workspace-relative path gives: the error message, if any.
pub open spec fn spec_path_error(s: Seq<char>) -> Option<Seq<char>> {
    if spec_is_absolute(s) {
        Some("absolute paths are not allowed"@)
    } else if spec_has_parent_component(s) {
        Some("path must stay inside workspace root"@)
    } else {
        None
    }
}

/// Scans a path into its named components, and reports whether some component is `..`.
fn scan_components(s: &str) -> (r: (Vec<Vec<char>>, bool))
    ensures
        r.0@.len() == spec_named(spec_split_slash(s@)).len(),
        forall|k: int| 0 <= k < r.0@.len() ==> #[trigger] r.0@[k]@ == spec_named(spec_split_slash(s@))[k],
        r.1 == spec_has_parent_component(s@),
{
    let chars = crate::text::chars_of(s);
    let mut named: Vec<Vec<char>> = Vec::new();
    let mut current: Vec<char> = Vec::new();
    let mut has_parent = false;
    let ghost mut done: Seq<Seq<char>> = Seq::empty();
    let mut i: usize = 0;
    assert(chars@.take(0) =~= Seq::<char>::empty());
    while i < chars.len()
        invariant
            i <= chars@.len(),
            chars@ == s@,
            spec_split_slash(chars@.take(i as int)) == done.push(current@),
            named@.len() == spec_named(done).len(),
            forall|k: int| 0 <= k < named@.len() ==> #[trigger] named@[k]@ == spec_named(done)[k],
            has_parent == done.contains(seq!['.', '.']),
        decreases chars@.len() - i,
    {
        let c = chars[i];
        assert(chars@.take(i as int + 1).drop_last() =~= chars@.take(i as int));
        if c == '/' {
            let seg_is_parent = current.len() == 2 && current[0] == '.' && current[1] == '.';
            assert(seg_is_parent == (current@ == seq!['.', '.'])) by {
                if current@ == seq!['.', '.'] {
                } else if seg_is_parent {
                    assert(current@ =~= seq!['.', '.']);
                }
            }
            let named_seg = current.len() > 0 && !(current.len() == 1 && current[0] == '.');
            assert(named_seg == is_named_component(current@)) by {
                if current@.len() == 1 && current@[0] == '.' {
                    assert(current@ =~= seq!['.']);
                }
            }
            let ghost old_done = done;
            proof {
                done = done.push(current@);
                assert(done.drop_last() =~= old_done);
                assert(done.contains(seq!['.', '.']) == (old_done.contains(seq!['.', '.']) || current@ == seq!['.', '.'])) by {
                    if old_done.contains(seq!['.', '.']) {
                        let w = choose|w: int| 0 <= w < old_done.len() && old_done[w] == seq!['.', '.'];
                        assert(done[w] == seq!['.', '.']);
                    }
                    if current@ == seq!['.', '.'] {
                        assert(done[done.len() - 1] == seq!['.', '.']);
                    }
                    if done.contains(seq!['.', '.']) {
                        let w = choose|w: int| 0 <= w < done.len() && done[w] == seq!['.', '.'];
                        if w < old_done.len() {
                            assert(old_done[w] == seq!['.', '.']);
                        }
                    }
                }
            }
            if seg_is_parent {
                has_parent = true;
            }
            if named_seg {
                let seg = current;
                named.push(seg);
            }
            current = Vec::new();
            proof {
                assert(spec_split_slash(chars@.take(i as int + 1)) =~= done.push(current@));
            }
        } else {
            current.push(c);
            proof {
                let p = spec_split_slash(chars@.take(i as int));
                assert(p.update(p.len() - 1, p.last().push(c)) =~= done.push(current@));
            }
        }
        i += 1;
    }
    assert(chars@.take(chars@.len() as int) =~= chars@);
    // the last component
    let seg_is_parent = current.len() == 2 && current[0] == '.' && current[1] == '.';
    assert(seg_is_parent == (current@ == seq!['.', '.'])) by {
        if seg_is_parent {
            assert(current@ =~= seq!['.', '.']);
        }
    }
    let named_seg = current.len() > 0 && !(current.len() == 1 && current[0] == '.');
    assert(named_seg == is_named_component(current@)) by {
        if current@.len() == 1 && current@[0] == '.' {
            assert(current@ =~= seq!['.']);
        }
    }
    let ghost full = done.push(current@);
    proof {
        assert(full.drop_last() =~= done);
        assert(full.contains(seq!['.', '.']) == (done.contains(seq!['.', '.']) || current@ == seq!['.', '.'])) by {
            if done.contains(seq!['.', '.']) {
                let w = choose|w: int| 0 <= w < done.len() && done[w] == seq!['.', '.'];
                assert(full[w] == seq!['.', '.']);
            }
            if current@ == seq!['.', '.'] {
                assert(full[full.len() - 1] == seq!['.', '.']);
            }
            if full.contains(seq!['.', '.']) {
                let w = choose|w: int| 0 <= w < full.len() && full[w] == seq!['.', '.'];
                if w < done.len() {
                    assert(done[w] == seq!['.', '.']);
                }
            }
        }
    }
    if seg_is_parent {
        has_parent = true;
    }
    if named_seg {
        named.push(current);
    }
    (named, has_parent)
}

/// Validates a user-provided path is workspace-relative and traversal-safe:
/// it must not start at the root, and no component may be `..`.
pub fn validate_workspace_relative_path(requested: &str) -> (r: Result<(), String>)
    ensures
        match spec_path_error(requested@) {
            None => r is Ok,
            Some(m) => r matches Err(e) && e@ == m,
        },
{
    let chars = crate::text::chars_of(requested);
    if chars.len() > 0 && chars[0] == '/' {
        return Err(copy_string("absolute paths are not allowed"));
    }
    let (_named, has_parent) = scan_components(requested);
    if has_parent {
        return Err(copy_string("path must stay inside workspace root"));
    }
    Ok(())
}

/// What normalizing a workspace-relative path into a scheduler resource id gives.
pub open spec fn spec_normalized_claim(s: Seq<char>) -> Result<Seq<char>, Seq<char>> {
    match spec_path_error(s) {
        Some(m) => Err(m),
        None => {
            let joined = spec_join_slash(spec_named(spec_split_slash(s)));
            if joined.len() == 0 {
                Err("path must include a file name"@)
            } else {
                Ok("fs:"@ + joined)
            }
        },
    }
}

pub proof fn lemma_join_empty_iff(parts: Seq<Seq<char>>)
    requires
        forall|k: int| 0 <= k < parts.len() ==> (#[trigger] parts[k]).len() > 0,
    ensures
        (spec_join_slash(parts).len() == 0) == (parts.len() == 0),
    decreases parts.len(),
{
    if parts.len() > 1 {
        lemma_join_empty_iff(parts.drop_last());
    }
}

pub proof fn lemma_named_nonempty(parts: Seq<Seq<char>>)
    ensures
        forall|k: int| 0 <= k < spec_named(parts).len() ==> (#[trigger] spec_named(parts)[k]).len() > 0,
    decreases parts.len(),
{
    if parts.len() > 0 {
        lemma_named_nonempty(parts.drop_last());
        let k = spec_named(parts.drop_last());
        assert forall|j: int| 0 <= j < spec_named(parts).len() implies (#[trigger] spec_named(parts)[j]).len() > 0 by {
            if j < k.len() {
                assert(k[j].len() > 0);
            }
        }
    }
}

/// Builds a normalized scheduler resource id (`fs:` and the named components
/// joined by `/`) for a workspace-relative path.
pub fn normalize_workspace_resource_claim(_workspace_root: &std::path::PathBuf, requested: &str) -> (r: Result<String, String>)
    ensures
        match spec_normalized_claim(requested@) {
            Ok(v) => r matches Ok(s) && s@ == v,
            Err(m) => r matches Err(e) && e@ == m,
        },
{
    match validate_workspace_relative_path(requested) {
        Err(e) => return Err(e),
        Ok(()) => {},
    }
    let (named, _) = scan_components(requested);
    let ghost parts = spec_named(spec_split_slash(requested@));
    let mut joined: Vec<char> = Vec::new();
    let mut i: usize = 0;
    while i < named.len()
        invariant
            i <= named@.len(),
            named@.len() == parts.len(),
            forall|k: int| 0 <= k < named@.len() ==> #[trigger] named@[k]@ == parts[k],
            joined@ == spec_join_slash(parts.take(i as int)),
        decreases named@.len() - i,
    {
        let ghost before = joined@;
        assert(parts.take(i as int + 1).drop_last() =~= parts.take(i as int));
        if i > 0 {
            joined.push('/');
        }
        crate::text::extend_from_chars(&mut joined, named[i].as_slice());
        proof {
            if i == 0 {
                assert(parts.take(1) =~= seq![parts[0]]);
                assert(joined@ =~= parts[0]);
            }
        }
        i += 1;
    }
    assert(parts.take(parts.len() as int) =~= parts);
    proof {
        lemma_named_nonempty(spec_split_slash(requested@));
        lemma_join_empty_iff(parts);
    }
    if joined.len() == 0 {
        return Err(copy_string("path must include a file name"));
    }
    let mut out: Vec<char> = Vec::new();
    crate::text::extend_chars(&mut out, "fs:");
    crate::text::extend_from_chars(&mut out, joined.as_slice());
    Ok(string_from_chars(out.as_slice()))
}

proof fn lemma_split_dot_prefix(s: Seq<char>)
    ensures
        spec_split_slash(seq!['.', '/'] + s) == seq![seq!['.']] + spec_split_slash(s),
    decreases s.len(),
{
    let d = seq!['.', '/'];
    if s.len() == 0 {
        assert(d + s =~= d);
        assert(d.drop_last() =~= seq!['.']);
        assert(seq!['.'].drop_last() =~= Seq::<char>::empty());
        let e = seq![Seq::<char>::empty()];
        assert(spec_split_slash(Seq::<char>::empty()) == e);
        assert(e.update(0, e.last().push('.')) =~= seq![seq!['.']]);
        assert(spec_split_slash(seq!['.']) == seq![seq!['.']]);
        assert(spec_split_slash(d) =~= seq![seq!['.'], Seq::<char>::empty()]);
    } else {
        lemma_split_dot_prefix(s.drop_last());
        lemma_split_nonempty(s.drop_last());
        assert((d + s).drop_last() =~= d + s.drop_last());
        assert((d + s).last() == s.last());
        let q = spec_split_slash(s.drop_last());
        let p = seq![seq!['.']] + q;
        if s.last() == '/' {
            assert(p.push(Seq::<char>::empty()) =~= seq![seq!['.']] + q.push(Seq::<char>::empty()));
        } else {
            assert(p.update(p.len() - 1, p.last().push(s.last())) =~= seq![seq!['.']] + q.update(
                q.len() - 1,
                q.last().push(s.last()),
            ));
        }
    }
}

proof fn lemma_named_skips_dot(x: Seq<Seq<char>>)
    ensures
        spec_named(seq![seq!['.']] + x) == spec_named(x),
    decreases x.len(),
{
    if x.len() == 0 {
        assert(seq![seq!['.']] + x =~= seq![seq!['.']]);
        assert(seq![seq!['.']].drop_last() =~= Seq::<Seq<char>>::empty());
        assert(!is_named_component(seq![seq!['.']].last()));
        assert(spec_named(Seq::<Seq<char>>::empty()) == Seq::<Seq<char>>::empty());
        assert(spec_named(seq![seq!['.']]) == spec_named(Seq::<Seq<char>>::empty()));
        assert(spec_named(x) =~= Seq::<Seq<char>>::empty());
    } else {
        lemma_named_skips_dot(x.drop_last());
        assert((seq![seq!['.']] + x).drop_last() =~= seq![seq!['.']] + x.drop_last());
        assert((seq![seq!['.']] + x).last() == x.last());
    }
}

/// A path and the same path written with a leading `./` name the same
/// resource (or fail alike), for any path that does not start with `/`.
pub proof fn lemma_dot_prefix_same_claim(p: Seq<char>)
    requires
        !spec_is_absolute(p),
    ensures
        spec_normalized_claim(seq!['.', '/'] + p) == spec_normalized_claim(p),
{
    let d = seq!['.', '/'];
    lemma_split_dot_prefix(p);
    lemma_named_skips_dot(spec_split_slash(p));
    assert(!spec_is_absolute(d + p)) by {
        assert((d + p)[0] == '.');
    }
    let x = spec_split_slash(p);
    assert((seq![seq!['.']] + x).contains(seq!['.', '.']) == x.contains(seq!['.', '.'])) by {
        if x.contains(seq!['.', '.']) {
            let i = choose|i: int| 0 <= i < x.len() && x[i] == seq!['.', '.'];
            assert((seq![seq!['.']] + x)[i + 1] == seq!['.', '.']);
        }
        if (seq![seq!['.']] + x).contains(seq!['.', '.']) {
            let i = choose|i: int| 0 <= i < x.len() + 1 && (seq![seq!['.']] + x)[i] == seq!['.', '.'];
            if i == 0 {
                assert(seq!['.'].len() != seq!['.', '.'].len());
            } else {
                assert(x[i - 1] == seq!['.', '.']);
            }
        }
    }
}

} // verus!
