//! The capabilities that a model is advertised with.
use vstd::prelude::*;

use crate::duplicate::Duplicate;
use crate::json::{json_object1, json_object2, lemma_object_model, map_of, set_entry, Json, JsonMap, JsonView};

verus! {

/// A way of thinking that a model can offer.
#[derive(Clone, Copy, Debug, PartialEq, Eq, Structural)]
pub enum ThinkingType {
    Adaptive,
    Enabled,
}

impl DeepView for ThinkingType {
    type V = ThinkingType;

    open spec fn deep_view(&self) -> ThinkingType {
        *self
    }
}

impl Duplicate for ThinkingType {
    fn duplicate(&self) -> (copy: Self) {
        *self
    }
}

/// A level of effort that a model can offer.
#[derive(Clone, Copy, Debug, PartialEq, Eq, Structural)]
pub enum EffortLevel {
    Max,
    Xhigh,
    High,
    Medium,
    Low,
    Minimal,
    Disabled,
}

impl DeepView for EffortLevel {
    type V = EffortLevel;

    open spec fn deep_view(&self) -> EffortLevel {
        *self
    }
}

impl Duplicate for EffortLevel {
    fn duplicate(&self) -> (copy: Self) {
        *self
    }
}

/// A feature of context management that a model can offer.
#[derive(Clone, Copy, Debug, PartialEq, Eq, Structural)]
pub enum ContextFeature {
    ClearThinking20251015,
    ClearToolUses20250919,
    Compact20260112,
}

impl DeepView for ContextFeature {
    type V = ContextFeature;

    open spec fn deep_view(&self) -> ContextFeature {
        *self
    }
}

impl Duplicate for ContextFeature {
    fn duplicate(&self) -> (copy: Self) {
        *self
    }
}

/// A capability that is there or not.
#[derive(Debug, PartialEq)]
pub struct SimpleCap {
    pub supported: bool,
}

/// The model of [`SimpleCap`].
pub struct SimpleCapView {
    pub supported: bool,
}

impl DeepView for SimpleCap {
    type V = SimpleCapView;

    open spec fn deep_view(&self) -> SimpleCapView {
        SimpleCapView {
            supported: self.supported,
        }
    }
}

impl Duplicate for SimpleCap {
    fn duplicate(&self) -> (copy: Self) {
        SimpleCap {
            supported: self.supported,
        }
    }
}

/// The capability to think.
#[derive(Debug, PartialEq)]
pub struct ThinkingCap {
    pub supported: bool,
    pub types: Vec<ThinkingType>,
}

/// The model of [`ThinkingCap`].
pub struct ThinkingCapView {
    pub supported: bool,
    pub types: Seq<ThinkingType>,
}

impl DeepView for ThinkingCap {
    type V = ThinkingCapView;

    open spec fn deep_view(&self) -> ThinkingCapView {
        ThinkingCapView {
            supported: self.supported,
            types: self.types.deep_view(),
        }
    }
}

impl Duplicate for ThinkingCap {
    fn duplicate(&self) -> (copy: Self) {
        ThinkingCap {
            supported: self.supported,
            types: self.types.duplicate(),
        }
    }
}

/// The capability to spend effort.
#[derive(Debug, PartialEq)]
pub struct EffortCap {
    pub supported: bool,
    pub levels: Vec<EffortLevel>,
}

/// The model of [`EffortCap`].
pub struct EffortCapView {
    pub supported: bool,
    pub levels: Seq<EffortLevel>,
}

impl DeepView for EffortCap {
    type V = EffortCapView;

    open spec fn deep_view(&self) -> EffortCapView {
        EffortCapView {
            supported: self.supported,
            levels: self.levels.deep_view(),
        }
    }
}

impl Duplicate for EffortCap {
    fn duplicate(&self) -> (copy: Self) {
        EffortCap {
            supported: self.supported,
            levels: self.levels.duplicate(),
        }
    }
}

/// The capability to manage the context.
#[derive(Debug, PartialEq)]
pub struct ContextManagementCap {
    pub supported: bool,
    pub features: Vec<ContextFeature>,
}

/// The model of [`ContextManagementCap`].
pub struct ContextManagementCapView {
    pub supported: bool,
    pub features: Seq<ContextFeature>,
}

impl DeepView for ContextManagementCap {
    type V = ContextManagementCapView;

    open spec fn deep_view(&self) -> ContextManagementCapView {
        ContextManagementCapView {
            supported: self.supported,
            features: self.features.deep_view(),
        }
    }
}

impl Duplicate for ContextManagementCap {
    fn duplicate(&self) -> (copy: Self) {
        ContextManagementCap {
            supported: self.supported,
            features: self.features.duplicate(),
        }
    }
}

/// The capabilities that a profile advertises in place of those of its upstream.
#[derive(Debug, PartialEq)]
pub struct CapabilitiesConfig {
    pub batch: Option<SimpleCap>,
    pub citations: Option<SimpleCap>,
    pub code_execution: Option<SimpleCap>,
    pub image_input: Option<SimpleCap>,
    pub pdf_input: Option<SimpleCap>,
    pub structured_outputs: Option<SimpleCap>,
    pub thinking: Option<ThinkingCap>,
    pub effort: Option<EffortCap>,
    pub context_management: Option<ContextManagementCap>,
}

/// The model of [`CapabilitiesConfig`].
pub struct CapabilitiesConfigView {
    pub batch: Option<SimpleCapView>,
    pub citations: Option<SimpleCapView>,
    pub code_execution: Option<SimpleCapView>,
    pub image_input: Option<SimpleCapView>,
    pub pdf_input: Option<SimpleCapView>,
    pub structured_outputs: Option<SimpleCapView>,
    pub thinking: Option<ThinkingCapView>,
    pub effort: Option<EffortCapView>,
    pub context_management: Option<ContextManagementCapView>,
}

impl DeepView for CapabilitiesConfig {
    type V = CapabilitiesConfigView;

    open spec fn deep_view(&self) -> CapabilitiesConfigView {
        CapabilitiesConfigView {
            batch: self.batch.deep_view(),
            citations: self.citations.deep_view(),
            code_execution: self.code_execution.deep_view(),
            image_input: self.image_input.deep_view(),
            pdf_input: self.pdf_input.deep_view(),
            structured_outputs: self.structured_outputs.deep_view(),
            thinking: self.thinking.deep_view(),
            effort: self.effort.deep_view(),
            context_management: self.context_management.deep_view(),
        }
    }
}

impl Duplicate for CapabilitiesConfig {
    fn duplicate(&self) -> (copy: Self) {
        CapabilitiesConfig {
            batch: self.batch.duplicate(),
            citations: self.citations.duplicate(),
            code_execution: self.code_execution.duplicate(),
            image_input: self.image_input.duplicate(),
            pdf_input: self.pdf_input.duplicate(),
            structured_outputs: self.structured_outputs.duplicate(),
            thinking: self.thinking.duplicate(),
            effort: self.effort.duplicate(),
            context_management: self.context_management.duplicate(),
        }
    }
}

impl ThinkingType {
    /// The name on the wire.
    pub open spec fn name(self) -> Seq<char> {
        match self {
            ThinkingType::Adaptive => "adaptive"@,
            ThinkingType::Enabled => "enabled"@,
        }
    }

    fn as_str(self) -> (result: &'static str)
        ensures
            result@ == self.name(),
    {
        match self {
            ThinkingType::Adaptive => "adaptive",
            ThinkingType::Enabled => "enabled",
        }
    }
}

impl EffortLevel {
    /// The name on the wire.
    pub open spec fn name(self) -> Seq<char> {
        match self {
            EffortLevel::Max => "max"@,
            EffortLevel::Xhigh => "xhigh"@,
            EffortLevel::High => "high"@,
            EffortLevel::Medium => "medium"@,
            EffortLevel::Low => "low"@,
            EffortLevel::Minimal => "minimal"@,
            EffortLevel::Disabled => "none"@,
        }
    }

    fn as_str(self) -> (result: &'static str)
        ensures
            result@ == self.name(),
    {
        match self {
            EffortLevel::Max => "max",
            EffortLevel::Xhigh => "xhigh",
            EffortLevel::High => "high",
            EffortLevel::Medium => "medium",
            EffortLevel::Low => "low",
            EffortLevel::Minimal => "minimal",
            EffortLevel::Disabled => "none",
        }
    }
}

impl ContextFeature {
    /// The name on the wire.
    pub open spec fn name(self) -> Seq<char> {
        match self {
            ContextFeature::ClearThinking20251015 => "clear_thinking_20251015"@,
            ContextFeature::ClearToolUses20250919 => "clear_tool_uses_20250919"@,
            ContextFeature::Compact20260112 => "compact_20260112"@,
        }
    }

    fn as_str(self) -> (result: &'static str)
        ensures
            result@ == self.name(),
    {
        match self {
            ContextFeature::ClearThinking20251015 => "clear_thinking_20251015",
            ContextFeature::ClearToolUses20250919 => "clear_tool_uses_20250919",
            ContextFeature::Compact20260112 => "compact_20260112",
        }
    }
}

/// Whether something is supported, on the wire.
pub open spec fn supported_json(supported: bool) -> JsonView {
    JsonView::Object(map!["supported"@ => JsonView::Bool(supported)])
}

fn supported_obj(supported: bool) -> (result: Json)
    ensures
        result.deep_view() == supported_json(supported),
{
    json_object1("supported", Json::Bool(supported))
}

impl SimpleCapView {
    /// The capability on the wire.
    pub open spec fn wire(self) -> JsonView {
        supported_json(self.supported)
    }
}

impl SimpleCap {
    fn to_wire(&self) -> (result: Json)
        ensures
            result.deep_view() == self.deep_view().wire(),
    {
        supported_obj(self.supported)
    }
}

/// The first `count` ways of thinking on the wire, each with the same support.
pub open spec fn type_flags(types: Seq<ThinkingType>, supported: bool, count: int) -> Map<
    Seq<char>,
    JsonView,
>
    decreases count,
{
    if count <= 0 {
        Map::empty()
    } else {
        type_flags(types, supported, count - 1).insert(
            types[count - 1].name(),
            supported_json(supported),
        )
    }
}

impl ThinkingCapView {
    /// The capability on the wire: the ways of thinking are listed under `types`.
    pub open spec fn wire(self) -> JsonView {
        JsonView::Object(
            map![
                "supported"@ => JsonView::Bool(self.supported),
                "types"@ => JsonView::Object(
                    type_flags(self.types, self.supported, self.types.len() as int),
                ),
            ],
        )
    }
}

impl ThinkingCap {
    fn to_wire(&self) -> (result: Json)
        ensures
            result.deep_view() == self.deep_view().wire(),
    {
        broadcast use lemma_object_model;

        let ghost types = self.types.deep_view();
        let mut flags: JsonMap = Vec::new();
        for index in 0..self.types.len()
            invariant
                types == self.types.deep_view(),
                map_of(flags.deep_view()) == type_flags(types, self.supported, index as int),
        {
            assert(types[index as int] == self.types@[index as int]);
            set_entry(
                &mut flags,
                self.types[index].as_str().to_string(),
                supported_obj(self.supported),
            );
        }
        json_object2("supported", Json::Bool(self.supported), "types", Json::Object(flags))
    }
}

/// `supported`, and the first `count` levels of effort beside it, each with the same support.
pub open spec fn level_flags(levels: Seq<EffortLevel>, supported: bool, count: int) -> Map<
    Seq<char>,
    JsonView,
>
    decreases count,
{
    if count <= 0 {
        map!["supported"@ => JsonView::Bool(supported)]
    } else {
        level_flags(levels, supported, count - 1).insert(
            levels[count - 1].name(),
            supported_json(supported),
        )
    }
}

impl EffortCapView {
    /// The capability on the wire: the levels stand beside `supported`.
    pub open spec fn wire(self) -> JsonView {
        JsonView::Object(level_flags(self.levels, self.supported, self.levels.len() as int))
    }
}

impl EffortCap {
    fn to_wire(&self) -> (result: Json)
        ensures
            result.deep_view() == self.deep_view().wire(),
    {
        broadcast use lemma_object_model;

        let ghost levels = self.levels.deep_view();
        let mut flags: JsonMap = Vec::new();
        set_entry(&mut flags, "supported".to_string(), Json::Bool(self.supported));
        for index in 0..self.levels.len()
            invariant
                levels == self.levels.deep_view(),
                map_of(flags.deep_view()) == level_flags(levels, self.supported, index as int),
        {
            assert(levels[index as int] == self.levels@[index as int]);
            set_entry(
                &mut flags,
                self.levels[index].as_str().to_string(),
                supported_obj(self.supported),
            );
        }
        Json::Object(flags)
    }
}

/// `supported`, and the first `count` features beside it, each with the same support.
pub open spec fn feature_flags(features: Seq<ContextFeature>, supported: bool, count: int) -> Map<
    Seq<char>,
    JsonView,
>
    decreases count,
{
    if count <= 0 {
        map!["supported"@ => JsonView::Bool(supported)]
    } else {
        feature_flags(features, supported, count - 1).insert(
            features[count - 1].name(),
            supported_json(supported),
        )
    }
}

impl ContextManagementCapView {
    /// The capability on the wire: the features stand beside `supported`.
    pub open spec fn wire(self) -> JsonView {
        JsonView::Object(feature_flags(self.features, self.supported, self.features.len() as int))
    }
}

impl ContextManagementCap {
    fn to_wire(&self) -> (result: Json)
        ensures
            result.deep_view() == self.deep_view().wire(),
    {
        broadcast use lemma_object_model;

        let ghost features = self.features.deep_view();
        let mut flags: JsonMap = Vec::new();
        set_entry(&mut flags, "supported".to_string(), Json::Bool(self.supported));
        for index in 0..self.features.len()
            invariant
                features == self.features.deep_view(),
                map_of(flags.deep_view()) == feature_flags(features, self.supported, index as int),
        {
            assert(features[index as int] == self.features@[index as int]);
            set_entry(
                &mut flags,
                self.features[index].as_str().to_string(),
                supported_obj(self.supported),
            );
        }
        Json::Object(flags)
    }
}

/// `base` with `value` under `key`, where there is a value.
pub open spec fn replaced(
    base: Map<Seq<char>, JsonView>,
    key: Seq<char>,
    value: Option<JsonView>,
) -> Map<Seq<char>, JsonView> {
    match value {
        Some(value) => base.insert(key, value),
        None => base,
    }
}

impl CapabilitiesConfigView {
    /// `base` with each capability that is configured in place of the one that was there.
    pub open spec fn over(self, base: Map<Seq<char>, JsonView>) -> Map<Seq<char>, JsonView> {
        let with_batch = replaced(
            base,
            "batch"@,
            match self.batch {
                Some(cap) => Some(cap.wire()),
                None => None,
            },
        );
        let with_citations = replaced(
            with_batch,
            "citations"@,
            match self.citations {
                Some(cap) => Some(cap.wire()),
                None => None,
            },
        );
        let with_code_execution = replaced(
            with_citations,
            "code_execution"@,
            match self.code_execution {
                Some(cap) => Some(cap.wire()),
                None => None,
            },
        );
        let with_image_input = replaced(
            with_code_execution,
            "image_input"@,
            match self.image_input {
                Some(cap) => Some(cap.wire()),
                None => None,
            },
        );
        let with_pdf_input = replaced(
            with_image_input,
            "pdf_input"@,
            match self.pdf_input {
                Some(cap) => Some(cap.wire()),
                None => None,
            },
        );
        let with_structured_outputs = replaced(
            with_pdf_input,
            "structured_outputs"@,
            match self.structured_outputs {
                Some(cap) => Some(cap.wire()),
                None => None,
            },
        );
        let with_thinking = replaced(
            with_structured_outputs,
            "thinking"@,
            match self.thinking {
                Some(cap) => Some(cap.wire()),
                None => None,
            },
        );
        let with_effort = replaced(
            with_thinking,
            "effort"@,
            match self.effort {
                Some(cap) => Some(cap.wire()),
                None => None,
            },
        );
        let with_context_management = replaced(
            with_effort,
            "context_management"@,
            match self.context_management {
                Some(cap) => Some(cap.wire()),
                None => None,
            },
        );
        with_context_management
    }
}

impl CapabilitiesConfig {
    /// Puts each capability that is configured in place of the one in `base`. What is no object
    /// has no capabilities to replace.
    pub fn merge_into(&self, base: Json) -> (result: Json)
        ensures
            result.deep_view() == (match base.deep_view() {
                JsonView::Object(map) => JsonView::Object(self.deep_view().over(map)),
                other => other,
            }),
    {
        broadcast use lemma_object_model;

        let mut entries: JsonMap = match base {
            Json::Object(entries) => entries,
            other => {
                return other;
            },
        };
        if let Some(cap) = &self.batch {
            set_entry(&mut entries, "batch".to_string(), cap.to_wire());
        }
        if let Some(cap) = &self.citations {
            set_entry(&mut entries, "citations".to_string(), cap.to_wire());
        }
        if let Some(cap) = &self.code_execution {
            set_entry(&mut entries, "code_execution".to_string(), cap.to_wire());
        }
        if let Some(cap) = &self.image_input {
            set_entry(&mut entries, "image_input".to_string(), cap.to_wire());
        }
        if let Some(cap) = &self.pdf_input {
            set_entry(&mut entries, "pdf_input".to_string(), cap.to_wire());
        }
        if let Some(cap) = &self.structured_outputs {
            set_entry(&mut entries, "structured_outputs".to_string(), cap.to_wire());
        }
        if let Some(cap) = &self.thinking {
            set_entry(&mut entries, "thinking".to_string(), cap.to_wire());
        }
        if let Some(cap) = &self.effort {
            set_entry(&mut entries, "effort".to_string(), cap.to_wire());
        }
        if let Some(cap) = &self.context_management {
            set_entry(&mut entries, "context_management".to_string(), cap.to_wire());
        }
        Json::Object(entries)
    }
}

/// The names under which capabilities are advertised.
pub open spec fn is_capability(key: Seq<char>) -> bool {
    ||| key == "batch"@
    ||| key == "citations"@
    ||| key == "code_execution"@
    ||| key == "image_input"@
    ||| key == "pdf_input"@
    ||| key == "structured_outputs"@
    ||| key == "thinking"@
    ||| key == "effort"@
    ||| key == "context_management"@
}

/// A capability that is not configured, and whatever is no capability, stays as it was.
pub proof fn law_other_capabilities_stay(
    config: CapabilitiesConfigView,
    base: Map<Seq<char>, JsonView>,
    key: Seq<char>,
)
    requires
        !is_capability(key),
    ensures
        config.over(base).dom().contains(key) == base.dom().contains(key),
        base.dom().contains(key) ==> config.over(base)[key] == base[key],
{
}

} // verus!
