//! The tools of a request in chat form, and what the names that come back stand for.
use vstd::prelude::*;

use crate::collections::TextMap;
use crate::duplicate::Duplicate;
use crate::error::{bad_request, outcome, AppError, AppErrorView, AppResult};
use crate::json::{
    json_object1, json_object2, json_object3, json_text, lemma_array_model, lemma_object_model,
    set_entry, Json, JsonMap, JsonView,
};
use crate::models::chat::{ChatTool, ChatToolDefinition, ChatToolDefinitionView, ChatToolView};
use crate::models::responses::{
    NamespaceToolSpec, NamespaceToolSpecView, ResponsesRequest, ResponsesRequestView, ToolSpec,
    ToolSpecView,
};
use crate::sorting::{sort_by_name, sorted_by_name, Named};
use crate::text::{lowered, same_text};

verus! {

/// The name of the tool that looks at images on the server.
pub const ANALYZE_IMAGE_TOOL_NAME: &'static str = "analyzeImage";

/// What a tool name that the model may call stands for.
#[derive(Debug, PartialEq)]
pub enum ToolKind {
    Function { public_name: String, namespace: Option<String> },
    Custom { public_name: String },
    LocalShell,
    ToolSearch,
    WebSearch,
    ImageAnalysis,
}

/// The model of [`ToolKind`].
pub enum ToolKindView {
    Function { public_name: Seq<char>, namespace: Option<Seq<char>> },
    Custom { public_name: Seq<char> },
    LocalShell,
    ToolSearch,
    WebSearch,
    ImageAnalysis,
}

impl DeepView for ToolKind {
    type V = ToolKindView;

    open spec fn deep_view(&self) -> ToolKindView {
        match self {
            ToolKind::Function { public_name, namespace } => ToolKindView::Function {
                public_name: public_name@,
                namespace: namespace.deep_view(),
            },
            ToolKind::Custom { public_name } => ToolKindView::Custom {
                public_name: public_name@,
            },
            ToolKind::LocalShell => ToolKindView::LocalShell,
            ToolKind::ToolSearch => ToolKindView::ToolSearch,
            ToolKind::WebSearch => ToolKindView::WebSearch,
            ToolKind::ImageAnalysis => ToolKindView::ImageAnalysis,
        }
    }
}

impl Duplicate for ToolKind {
    fn duplicate(&self) -> (copy: Self) {
        match self {
            ToolKind::Function { public_name, namespace } => ToolKind::Function {
                public_name: public_name.clone(),
                namespace: namespace.duplicate(),
            },
            ToolKind::Custom { public_name } => ToolKind::Custom {
                public_name: public_name.clone(),
            },
            ToolKind::LocalShell => ToolKind::LocalShell,
            ToolKind::ToolSearch => ToolKind::ToolSearch,
            ToolKind::WebSearch => ToolKind::WebSearch,
            ToolKind::ImageAnalysis => ToolKind::ImageAnalysis,
        }
    }
}

/// The tools of a turn, by their names in lower case.
#[derive(Debug, PartialEq)]
pub struct ToolRegistry {
    by_name: TextMap<ToolKind>,
}

impl DeepView for ToolRegistry {
    type V = Map<Seq<char>, ToolKindView>;

    closed spec fn deep_view(&self) -> Map<Seq<char>, ToolKindView> {
        self.by_name.deep_view()
    }
}

impl ToolRegistry {
    /// What `name` stands for.
    pub fn get(&self, name: &str) -> (result: Option<&ToolKind>)
        ensures
            result is Some <==> self.deep_view().dom().contains(name@),
            result matches Some(kind) ==> kind.deep_view() == self.deep_view()[name@],
    {
        self.by_name.get(name)
    }

    /// The registry with the given names.
    pub fn from_map(by_name: TextMap<ToolKind>) -> (result: Self)
        ensures
            result.deep_view() == by_name.deep_view(),
    {
        ToolRegistry { by_name }
    }
}

impl Named for ChatTool {
    open spec fn name_of(model: ChatToolView) -> Seq<char> {
        model.function.name
    }

    fn name(&self) -> (result: &str) {
        self.function.name.as_str()
    }
}

// ---------------------------------------------------------------------------------------------
// The tool choice
// ---------------------------------------------------------------------------------------------

/// Whether a tool choice names a function.
pub open spec fn names_function(choice: JsonView) -> bool {
    &&& choice.get_str("type"@) == Some("function"@)
    &&& choice.get("function"@) matches Some(function)
    &&& function.get_str("name"@) matches Some(name)
    &&& name.len() > 0
}

/// Why a request is turned away before anything else is looked at.
pub open spec fn request_problem(request: ResponsesRequestView) -> Option<Seq<char>> {
    if request.previous_response_id is Some {
        Some("previous_response_id is not supported in v1"@)
    } else {
        match request.tool_choice {
            JsonView::Text(choice) => if choice == "auto"@ || choice == "none"@ {
                None
            } else if choice == "required"@ {
                if request.tools.len() == 0 {
                    Some("tool_choice is \"required\" but no tools are provided"@)
                } else {
                    None
                }
            } else {
                Some(
                    "invalid tool_choice string: \""@ + choice
                        + "\"; expected \"auto\", \"none\", or \"required\""@,
                )
            },
            JsonView::Object(_) => if !names_function(request.tool_choice) {
                Some(
                    "invalid tool_choice object: expected {\"type\":\"function\",\"function\":{\"name\":\"<non-empty>\"}}"@,
                )
            } else if request.tools.len() == 0 {
                Some("tool_choice specifies a function but no tools are provided"@)
            } else {
                None
            },
            _ => Some(
                "invalid tool_choice: expected a string (\"auto\", \"none\", \"required\") or a function object"@,
            ),
        }
    }
}

fn is_function_choice(choice: &Json) -> (result: bool)
    ensures
        result == names_function(choice.deep_view()),
{
    let is_function = match choice.get_str("type") {
        Some(kind) => same_text(kind, "function"),
        None => false,
    };
    if !is_function {
        return false;
    }
    match choice.get("function") {
        Some(function) => match function.get_str("name") {
            Some(name) => !name.is_empty(),
            None => false,
        },
        None => false,
    }
}

/// Turns away a request that continues a stored response, or whose tool choice makes no sense.
pub fn validate_request(request: &ResponsesRequest) -> (result: AppResult<()>)
    ensures
        match request_problem(request.deep_view()) {
            Some(problem) => result matches Err(error) && error.deep_view() == bad_request(problem),
            None => result is Ok,
        },
{
    if request.previous_response_id.is_some() {
        return Err(
            AppError::bad_request("previous_response_id is not supported in v1".to_string()),
        );
    }
    match &request.tool_choice {
        Json::Text(choice) => {
            if same_text(choice.as_str(), "auto") || same_text(choice.as_str(), "none") {
                Ok(())
            } else if same_text(choice.as_str(), "required") {
                if request.tools.len() == 0 {
                    Err(
                        AppError::bad_request(
                            "tool_choice is \"required\" but no tools are provided".to_string(),
                        ),
                    )
                } else {
                    Ok(())
                }
            } else {
                let mut message = "invalid tool_choice string: \"".to_string();
                message.push_str(choice.as_str());
                message.push_str("\"; expected \"auto\", \"none\", or \"required\"");
                Err(AppError::bad_request(message))
            }
        },
        Json::Object(_) => {
            if !is_function_choice(&request.tool_choice) {
                Err(
                    AppError::bad_request(
                        "invalid tool_choice object: expected {\"type\":\"function\",\"function\":{\"name\":\"<non-empty>\"}}".to_string(),
                    ),
                )
            } else if request.tools.len() == 0 {
                Err(
                    AppError::bad_request(
                        "tool_choice specifies a function but no tools are provided".to_string(),
                    ),
                )
            } else {
                Ok(())
            }
        },
        _ => Err(
            AppError::bad_request(
                "invalid tool_choice: expected a string (\"auto\", \"none\", \"required\") or a function object".to_string(),
            ),
        ),
    }
}

// ---------------------------------------------------------------------------------------------
// Tools in chat form
// ---------------------------------------------------------------------------------------------

/// A function tool in chat form.
pub open spec fn function_tool(
    name: Seq<char>,
    description: Seq<char>,
    parameters: JsonView,
    strict: bool,
) -> ChatToolView {
    ChatToolView {
        kind: "function"@,
        function: ChatToolDefinitionView {
            name,
            description,
            parameters: Some(parameters),
            strict,
        },
    }
}

/// The JSON schema of a value of the given type.
pub open spec fn type_schema(kind: Seq<char>) -> JsonView {
    JsonView::Object(map!["type"@ => JsonView::Text(kind)])
}

/// The JSON schema of an object with one required text property.
pub open spec fn text_property_schema(property: Seq<char>) -> JsonView {
    JsonView::Object(
        map![
            "type"@ => JsonView::Text("object"@),
            "properties"@ => JsonView::Object(map![property => type_schema("string"@)]),
            "required"@ => JsonView::Array(seq![JsonView::Text(property)]),
        ],
    )
}

/// The JSON schema of the arguments of the shell tool.
pub open spec fn shell_schema() -> JsonView {
    JsonView::Object(
        map![
            "type"@ => JsonView::Text("object"@),
            "properties"@ => JsonView::Object(
                map![
                    "command"@ => JsonView::Object(
                        map![
                            "type"@ => JsonView::Text("array"@),
                            "items"@ => type_schema("string"@),
                        ],
                    ),
                    "timeout_ms"@ => type_schema("integer"@),
                    "working_directory"@ => type_schema("string"@),
                    "env"@ => JsonView::Object(
                        map![
                            "type"@ => JsonView::Text("object"@),
                            "additionalProperties"@ => type_schema("string"@),
                        ],
                    ),
                    "user"@ => type_schema("string"@),
                ],
            ),
            "required"@ => JsonView::Array(seq![JsonView::Text("command"@)]),
        ],
    )
}

/// A tool of a namespace in chat form.
pub open spec fn namespace_tool(tool: NamespaceToolSpecView) -> ChatToolView {
    match tool {
        NamespaceToolSpecView::Function { name, description, strict, parameters } => function_tool(
            name,
            description,
            parameters,
            strict,
        ),
    }
}

/// The chat tools that a tool of a request turns into.
pub open spec fn chat_tools(spec_view: ToolSpecView) -> Seq<ChatToolView> {
    match spec_view {
        ToolSpecView::Function { name, description, strict, parameters } => seq![
            function_tool(name, description, parameters, strict),
        ],
        ToolSpecView::Namespace { name, description, tools } => tools.map_values(
            |tool: NamespaceToolSpecView| namespace_tool(tool),
        ),
        ToolSpecView::ToolSearch { execution, description, parameters } => seq![
            function_tool("tool_search"@, description, parameters, false),
        ],
        ToolSpecView::LocalShell => seq![
            function_tool(
                "local_shell"@,
                "Execute a shell command locally."@,
                shell_schema(),
                false,
            ),
        ],
        ToolSpecView::WebSearch {
            external_web_access,
            filters,
            user_location,
            search_context_size,
            search_content_types,
        } => seq![
            function_tool(
                "web_search"@,
                "Search the web and return relevant result snippets."@,
                text_property_schema("query"@),
                false,
            ),
        ],
        ToolSpecView::Custom { name, description, format } => seq![
            function_tool(
                name,
                description + "\n\nReturn the raw tool input as a string matching the "@ + format.kind
                    + " "@ + format.syntax + " format."@,
                text_property_schema("input"@),
                false,
            ),
        ],
        ToolSpecView::ImageGeneration { output_format } => Seq::empty(),
    }
}

/// The chat tools of a request, in the order of the request.
pub open spec fn all_chat_tools(specs: Seq<ToolSpecView>) -> Seq<ChatToolView>
    decreases specs.len(),
{
    if specs.len() == 0 {
        Seq::empty()
    } else {
        all_chat_tools(specs.drop_last()) + chat_tools(specs.last())
    }
}

/// The first name that stands in `names` a second time.
pub open spec fn first_repeat(names: Seq<Seq<char>>) -> Option<Seq<char>>
    decreases names.len(),
{
    if names.len() == 0 {
        None
    } else {
        match first_repeat(names.drop_last()) {
            Some(name) => Some(name),
            None => if names.drop_last().contains(names.last()) {
                Some(names.last())
            } else {
                None
            },
        }
    }
}

/// The names of chat tools.
pub open spec fn tool_names(tools: Seq<ChatToolView>) -> Seq<Seq<char>> {
    tools.map_values(|tool: ChatToolView| tool.function.name)
}

/// The error for a tool name that occurs twice.
pub open spec fn duplicate_tool(name: Seq<char>) -> AppErrorView {
    bad_request("duplicate tool name is not supported: "@ + name)
}

/// The chat tools of a request in the order of their names. No name may occur twice.
pub open spec fn lowered_tools(specs: Seq<ToolSpecView>) -> Result<Seq<ChatToolView>, AppErrorView> {
    match first_repeat(tool_names(all_chat_tools(specs))) {
        Some(name) => Err(duplicate_tool(name)),
        None => Ok(sorted_by_name::<ChatTool>(all_chat_tools(specs))),
    }
}

fn schema_of_type(kind: &str) -> (result: Json)
    ensures
        result.deep_view() == type_schema(kind@),
{
    json_object1("type", json_text(kind))
}

fn required_names(name: &str) -> (result: Json)
    ensures
        result.deep_view() == JsonView::Array(seq![JsonView::Text(name@)]),
{
    broadcast use lemma_array_model;

    let names = vec![json_text(name)];
    assert(names.deep_view() =~= seq![JsonView::Text(name@)]);
    Json::Array(names)
}

fn schema_of_text_property(property: &str) -> (result: Json)
    ensures
        result.deep_view() == text_property_schema(property@),
{
    json_object3(
        "type",
        json_text("object"),
        "properties",
        json_object1(property, schema_of_type("string")),
        "required",
        required_names(property),
    )
}

fn schema_of_shell() -> (result: Json)
    ensures
        result.deep_view() == shell_schema(),
{
    broadcast use lemma_object_model;

    let mut properties: JsonMap = Vec::new();
    set_entry(
        &mut properties,
        "command".to_string(),
        json_object2("type", json_text("array"), "items", schema_of_type("string")),
    );
    set_entry(&mut properties, "timeout_ms".to_string(), schema_of_type("integer"));
    set_entry(&mut properties, "working_directory".to_string(), schema_of_type("string"));
    set_entry(
        &mut properties,
        "env".to_string(),
        json_object2(
            "type",
            json_text("object"),
            "additionalProperties",
            schema_of_type("string"),
        ),
    );
    set_entry(&mut properties, "user".to_string(), schema_of_type("string"));
    json_object3(
        "type",
        json_text("object"),
        "properties",
        Json::Object(properties),
        "required",
        required_names("command"),
    )
}

fn make_function_tool(name: String, description: String, parameters: Json, strict: bool) -> (result:
    ChatTool)
    ensures
        result.deep_view() == function_tool(
            name@,
            description@,
            parameters.deep_view(),
            strict,
        ),
{
    ChatTool {
        kind: "function".to_string(),
        function: ChatToolDefinition { name, description, parameters: Some(parameters), strict },
    }
}

fn single_tool(tool: ChatTool) -> (result: Vec<ChatTool>)
    ensures
        result.deep_view() == seq![tool.deep_view()],
{
    let result = vec![tool];
    assert(result.deep_view() =~= seq![tool.deep_view()]);
    result
}

fn lower_namespace(tools: &Vec<NamespaceToolSpec>) -> (result: Vec<ChatTool>)
    ensures
        result.deep_view() == tools.deep_view().map_values(
            |tool: NamespaceToolSpecView| namespace_tool(tool),
        ),
{
    let mut result: Vec<ChatTool> = Vec::new();
    for index in 0..tools.len()
        invariant
            result@.len() == index,
            forall|k: int|
                0 <= k < index ==> #[trigger] result@[k].deep_view() == namespace_tool(
                    tools@[k].deep_view(),
                ),
    {
        let NamespaceToolSpec::Function { name, description, strict, parameters } = &tools[index];
        result.push(
            make_function_tool(name.clone(), description.clone(), parameters.duplicate(), *strict),
        );
    }
    assert(result.deep_view() =~= tools.deep_view().map_values(
        |tool: NamespaceToolSpecView| namespace_tool(tool),
    ));
    result
}

fn lower_tool(tool: &ToolSpec) -> (result: Vec<ChatTool>)
    ensures
        result.deep_view() == chat_tools(tool.deep_view()),
{
    match tool {
        ToolSpec::Function { name, description, strict, parameters } => single_tool(
            make_function_tool(name.clone(), description.clone(), parameters.duplicate(), *strict),
        ),
        ToolSpec::Namespace { name: _, description: _, tools } => lower_namespace(tools),
        ToolSpec::ToolSearch { execution: _, description, parameters } => single_tool(
            make_function_tool(
                "tool_search".to_string(),
                description.clone(),
                parameters.duplicate(),
                false,
            ),
        ),
        ToolSpec::LocalShell => single_tool(
            make_function_tool(
                "local_shell".to_string(),
                "Execute a shell command locally.".to_string(),
                schema_of_shell(),
                false,
            ),
        ),
        ToolSpec::WebSearch { .. } => single_tool(
            make_function_tool(
                "web_search".to_string(),
                "Search the web and return relevant result snippets.".to_string(),
                schema_of_text_property("query"),
                false,
            ),
        ),
        ToolSpec::Custom { name, description, format } => {
            let mut text = description.clone();
            text.push_str("\n\nReturn the raw tool input as a string matching the ");
            text.push_str(format.kind.as_str());
            text.push_str(" ");
            text.push_str(format.syntax.as_str());
            text.push_str(" format.");
            single_tool(
                make_function_tool(name.clone(), text, schema_of_text_property("input"), false),
            )
        },
        ToolSpec::ImageGeneration { .. } => {
            let result: Vec<ChatTool> = Vec::new();
            assert(result.deep_view() =~= Seq::<ChatToolView>::empty());
            result
        },
    }
}

/// A name that is seen twice in the beginning is seen twice in the whole.
proof fn lemma_first_repeat_stays(names: Seq<Seq<char>>, upto: int)
    requires
        0 <= upto <= names.len(),
        first_repeat(names.take(upto)) is Some,
    ensures
        first_repeat(names) == first_repeat(names.take(upto)),
    decreases names.len(),
{
    if upto == names.len() {
        assert(names.take(upto) =~= names);
    } else {
        assert(names.drop_last().take(upto) =~= names.take(upto));
        lemma_first_repeat_stays(names.drop_last(), upto);
    }
}

/// The tools of a request in chat form, in the order of their names. Tools that the chat API has
/// no form for are left out.
pub fn lower_tools(specs: &Vec<ToolSpec>) -> (result: AppResult<Vec<ChatTool>>)
    ensures
        outcome(result) == lowered_tools(specs.deep_view()),
{
    let ghost models = specs.deep_view();
    let mut tools: Vec<ChatTool> = Vec::new();
    assert(tools.deep_view() =~= all_chat_tools(models.take(0)));
    for index in 0..specs.len()
        invariant
            models == specs.deep_view(),
            tools.deep_view() == all_chat_tools(models.take(index as int)),
    {
        let ghost before = tools.deep_view();
        let mut added = lower_tool(&specs[index]);
        let ghost extra = added.deep_view();
        tools.append(&mut added);
        proof {
            assert(models.take(index + 1).drop_last() =~= models.take(index as int));
            assert(tools.deep_view() =~= before + extra);
        }
    }
    assert(models.take(models.len() as int) =~= models);
    let ghost names = tool_names(tools.deep_view());
    let mut seen: TextMap<bool> = TextMap::new();
    for index in 0..tools.len()
        invariant
            models == specs.deep_view(),
            tools.deep_view() == all_chat_tools(models),
            names == tool_names(tools.deep_view()),
            first_repeat(names.take(index as int)) is None,
            forall|name: Seq<char>|
                seen.deep_view().dom().contains(name) <==> names.take(index as int).contains(name),
    {
        let name = &tools[index].function.name;
        let ghost before = names.take(index as int);
        let ghost after = names.take(index + 1);
        proof {
            assert(after.drop_last() =~= before);
            assert(after.last() == name@);
        }
        if seen.contains_key(name.as_str()) {
            proof {
                assert(before.contains(name@));
                lemma_first_repeat_stays(names, index + 1);
            }
            let mut message = "duplicate tool name is not supported: ".to_string();
            message.push_str(name.as_str());
            return Err(AppError::bad_request(message));
        }
        seen.insert(name.clone(), true);
        proof {
            assert forall|other: Seq<char>|
                seen.deep_view().dom().contains(other) <==> after.contains(other) by {
                assert(after == before.push(name@));
                if before.contains(other) {
                    let k = choose|k: int| 0 <= k < before.len() && before[k] == other;
                    assert(after[k] == other);
                }
                if other == name@ {
                    assert(after[index as int] == other);
                }
                if after.contains(other) && other != name@ {
                    let k = choose|k: int| 0 <= k < after.len() && after[k] == other;
                    assert(before[k] == other);
                }
            }
        }
    }
    assert(names.take(names.len() as int) =~= names);
    Ok(sort_by_name(tools))
}

// ---------------------------------------------------------------------------------------------
// What tool names stand for
// ---------------------------------------------------------------------------------------------

/// What the names stand for that a tool of a request brings.
pub open spec fn tool_kinds(spec_view: ToolSpecView, image_agent_active: bool) -> Seq<
    (Seq<char>, ToolKindView),
> {
    match spec_view {
        ToolSpecView::Function { name, description, strict, parameters } => seq![
            (
                name,
                if image_agent_active && lowered(name) == lowered(ANALYZE_IMAGE_TOOL_NAME@) {
                    ToolKindView::ImageAnalysis
                } else {
                    ToolKindView::Function { public_name: name, namespace: None }
                },
            ),
        ],
        ToolSpecView::Namespace { name, description, tools } => tools.map_values(
            |tool: NamespaceToolSpecView|
                (
                    tool->name,
                    ToolKindView::Function { public_name: tool->name, namespace: Some(name) },
                ),
        ),
        ToolSpecView::ToolSearch { execution, description, parameters } => seq![
            ("tool_search"@, ToolKindView::ToolSearch),
        ],
        ToolSpecView::LocalShell => seq![("local_shell"@, ToolKindView::LocalShell)],
        ToolSpecView::WebSearch {
            external_web_access,
            filters,
            user_location,
            search_context_size,
            search_content_types,
        } => seq![("web_search"@, ToolKindView::WebSearch)],
        ToolSpecView::Custom { name, description, format } => seq![
            (name, ToolKindView::Custom { public_name: name }),
        ],
        ToolSpecView::ImageGeneration { output_format } => Seq::empty(),
    }
}

/// What all names of a request stand for, in the order of the request.
pub open spec fn all_tool_kinds(specs: Seq<ToolSpecView>, image_agent_active: bool) -> Seq<
    (Seq<char>, ToolKindView),
>
    decreases specs.len(),
{
    if specs.len() == 0 {
        Seq::empty()
    } else {
        all_tool_kinds(specs.drop_last(), image_agent_active) + tool_kinds(
            specs.last(),
            image_agent_active,
        )
    }
}

/// The names of `kinds` in lower case.
pub open spec fn kind_names(kinds: Seq<(Seq<char>, ToolKindView)>) -> Seq<Seq<char>> {
    kinds.map_values(|entry: (Seq<char>, ToolKindView)| lowered(entry.0))
}

/// The kinds by their names in lower case.
pub open spec fn kinds_by_name(kinds: Seq<(Seq<char>, ToolKindView)>) -> Map<Seq<char>, ToolKindView>
    decreases kinds.len(),
{
    if kinds.len() == 0 {
        Map::empty()
    } else {
        kinds_by_name(kinds.drop_last()).insert(lowered(kinds.last().0), kinds.last().1)
    }
}

/// The tools of a request by name. No name may occur twice, whatever the case of its letters.
pub open spec fn tool_registry(specs: Seq<ToolSpecView>, image_agent_active: bool) -> Result<
    Map<Seq<char>, ToolKindView>,
    AppErrorView,
> {
    let kinds = all_tool_kinds(specs, image_agent_active);
    match first_repeat(kind_names(kinds)) {
        Some(name) => Err(duplicate_tool(name)),
        None => Ok(kinds_by_name(kinds)),
    }
}

fn single_kind(name: String, kind: ToolKind) -> (result: Vec<(String, ToolKind)>)
    ensures
        result.deep_view() == seq![(name@, kind.deep_view())],
{
    let result = vec![(name, kind)];
    assert(result.deep_view() =~= seq![(name@, kind.deep_view())]);
    result
}

fn kinds_of_tool(tool: &ToolSpec, image_agent_active: bool) -> (result: Vec<(String, ToolKind)>)
    ensures
        result.deep_view() == tool_kinds(tool.deep_view(), image_agent_active),
{
    match tool {
        ToolSpec::Function { name, .. } => if image_agent_active && name.as_str().eq_ignore_ascii_case(
            ANALYZE_IMAGE_TOOL_NAME,
        ) {
            single_kind(name.clone(), ToolKind::ImageAnalysis)
        } else {
            single_kind(
                name.clone(),
                ToolKind::Function { public_name: name.clone(), namespace: None },
            )
        },
        ToolSpec::Namespace { name: namespace, description: _, tools } => {
            let mut result: Vec<(String, ToolKind)> = Vec::new();
            let ghost expected = tool_kinds(tool.deep_view(), image_agent_active);
            for index in 0..tools.len()
                invariant
                    expected == tools.deep_view().map_values(
                        |tool: NamespaceToolSpecView|
                            (
                                tool->name,
                                ToolKindView::Function {
                                    public_name: tool->name,
                                    namespace: Some(namespace@),
                                },
                            ),
                    ),
                    result@.len() == index,
                    forall|k: int|
                        0 <= k < index ==> #[trigger] result@[k].deep_view() == expected[k],
            {
                let NamespaceToolSpec::Function { name, .. } = &tools[index];
                result.push(
                    (
                        name.clone(),
                        ToolKind::Function {
                            public_name: name.clone(),
                            namespace: Some(namespace.clone()),
                        },
                    ),
                );
            }
            assert(result.deep_view() =~= expected);
            result
        },
        ToolSpec::ToolSearch { .. } => single_kind("tool_search".to_string(), ToolKind::ToolSearch),
        ToolSpec::LocalShell => single_kind("local_shell".to_string(), ToolKind::LocalShell),
        ToolSpec::WebSearch { .. } => single_kind("web_search".to_string(), ToolKind::WebSearch),
        ToolSpec::Custom { name, .. } => single_kind(
            name.clone(),
            ToolKind::Custom { public_name: name.clone() },
        ),
        ToolSpec::ImageGeneration { .. } => {
            let result: Vec<(String, ToolKind)> = Vec::new();
            assert(result.deep_view() =~= Seq::<(Seq<char>, ToolKindView)>::empty());
            result
        },
    }
}

/// What the tool names of a request stand for. With an active image agent the image tool runs on
/// the server.
pub fn build_tool_registry(specs: &Vec<ToolSpec>, image_agent_active: bool) -> (result: AppResult<
    ToolRegistry,
>)
    ensures
        outcome(result) == tool_registry(specs.deep_view(), image_agent_active),
{
    let ghost models = specs.deep_view();
    let mut kinds: Vec<(String, ToolKind)> = Vec::new();
    assert(kinds.deep_view() =~= all_tool_kinds(models.take(0), image_agent_active));
    for index in 0..specs.len()
        invariant
            models == specs.deep_view(),
            kinds.deep_view() == all_tool_kinds(models.take(index as int), image_agent_active),
    {
        let ghost before = kinds.deep_view();
        let mut added = kinds_of_tool(&specs[index], image_agent_active);
        let ghost extra = added.deep_view();
        kinds.append(&mut added);
        proof {
            assert(models.take(index + 1).drop_last() =~= models.take(index as int));
            assert(kinds.deep_view() =~= before + extra);
        }
    }
    assert(models.take(models.len() as int) =~= models);
    let ghost listed = kinds.deep_view();
    let ghost names = kind_names(listed);
    let mut by_name: TextMap<ToolKind> = TextMap::new();
    assert(listed.take(0) =~= Seq::empty());
    for index in 0..kinds.len()
        invariant
            models == specs.deep_view(),
            listed == kinds.deep_view(),
            listed == all_tool_kinds(models, image_agent_active),
            names == kind_names(listed),
            first_repeat(names.take(index as int)) is None,
            by_name.deep_view() == kinds_by_name(listed.take(index as int)),
            forall|name: Seq<char>|
                by_name.deep_view().dom().contains(name) <==> names.take(index as int).contains(name),
    {
        let name = kinds[index].0.as_str().to_ascii_lowercase();
        let ghost before = names.take(index as int);
        let ghost after = names.take(index + 1);
        proof {
            assert(after.drop_last() =~= before);
            assert(names[index as int] == name@);
            assert(after.last() == name@);
            assert(listed.take(index + 1).drop_last() =~= listed.take(index as int));
        }
        if by_name.contains_key(name.as_str()) {
            proof {
                assert(before.contains(name@));
                lemma_first_repeat_stays(names, index + 1);
            }
            let mut message = "duplicate tool name is not supported: ".to_string();
            message.push_str(name.as_str());
            return Err(AppError::bad_request(message));
        }
        by_name.insert(name.clone(), kinds[index].1.duplicate());
        proof {
            assert forall|other: Seq<char>|
                by_name.deep_view().dom().contains(other) <==> after.contains(other) by {
                assert(after == before.push(name@));
                if before.contains(other) {
                    let k = choose|k: int| 0 <= k < before.len() && before[k] == other;
                    assert(after[k] == other);
                }
                if other == name@ {
                    assert(after[index as int] == other);
                }
                if after.contains(other) && other != name@ {
                    let k = choose|k: int| 0 <= k < after.len() && after[k] == other;
                    assert(before[k] == other);
                }
            }
        }
    }
    proof {
        assert(names.take(names.len() as int) =~= names);
        assert(listed.take(listed.len() as int) =~= listed);
    }
    Ok(ToolRegistry::from_map(by_name))
}

// ---------------------------------------------------------------------------------------------
// Laws
// ---------------------------------------------------------------------------------------------

proof fn lemma_names_agree(specs: Seq<ToolSpecView>, image_agent_active: bool)
    ensures
        kind_names(all_tool_kinds(specs, image_agent_active)) == tool_names(
            all_chat_tools(specs),
        ).map_values(|name: Seq<char>| lowered(name)),
    decreases specs.len(),
{
    let kinds = all_tool_kinds(specs, image_agent_active);
    let tools = all_chat_tools(specs);
    if specs.len() > 0 {
        lemma_names_agree(specs.drop_last(), image_agent_active);
        let kinds_before = all_tool_kinds(specs.drop_last(), image_agent_active);
        let tools_before = all_chat_tools(specs.drop_last());
        let kinds_last = tool_kinds(specs.last(), image_agent_active);
        let tools_last = chat_tools(specs.last());
        assert(kind_names(kinds_before).len() == tool_names(tools_before).map_values(
            |name: Seq<char>| lowered(name),
        ).len());
        assert(kinds_last.len() == tools_last.len());
        assert forall|k: int| 0 <= k < kinds_last.len() implies (#[trigger] kinds_last[k]).0
            == tools_last[k].function.name by {}
        assert forall|k: int| 0 <= k < kinds.len() implies #[trigger] kind_names(kinds)[k]
            == lowered(tool_names(tools)[k]) by {
            if k < kinds_before.len() {
                assert(kind_names(kinds_before)[k] == tool_names(tools_before).map_values(
                    |name: Seq<char>| lowered(name),
                )[k]);
            } else {
                assert(kinds[k] == kinds_last[k - kinds_before.len()]);
            }
        }
    }
    assert(kind_names(kinds) =~= tool_names(tools).map_values(|name: Seq<char>| lowered(name)));
}

pub(super) proof fn lemma_no_repeat(names: Seq<Seq<char>>)
    ensures
        first_repeat(names) is None <==> names.no_duplicates(),
    decreases names.len(),
{
    if names.len() > 0 {
        let before = names.drop_last();
        lemma_no_repeat(before);
        if names.no_duplicates() {
            assert forall|i: int, j: int| 0 <= i < before.len() && 0 <= j < before.len() && i != j implies before[i]
                != before[j] by {
                assert(names[i] != names[j]);
            }
            if before.contains(names.last()) {
                let k = choose|k: int| 0 <= k < before.len() && before[k] == names.last();
                assert(names[k] == names[names.len() - 1]);
            }
        }
        if first_repeat(names) is None {
            assert forall|i: int, j: int| 0 <= i < names.len() && 0 <= j < names.len() && i != j implies names[i]
                != names[j] by {
                if i < before.len() && j < before.len() {
                    assert(before[i] != before[j]);
                } else if i < before.len() {
                    assert(before[i] == names[i]);
                } else {
                    assert(before[j] == names[j]);
                }
            }
        }
    }
}

/// A request is turned away for a repeated tool name exactly when a name occurs twice.
pub proof fn law_tools_are_lowered_unless_a_name_repeats(specs: Seq<ToolSpecView>)
    ensures
        lowered_tools(specs) is Ok <==> tool_names(all_chat_tools(specs)).no_duplicates(),
{
    lemma_no_repeat(tool_names(all_chat_tools(specs)));
}

proof fn lemma_kinds_by_name(kinds: Seq<(Seq<char>, ToolKindView)>, name: Seq<char>)
    ensures
        kinds_by_name(kinds).dom().contains(name) <==> kind_names(kinds).contains(name),
    decreases kinds.len(),
{
    if kinds.len() > 0 {
        let before = kinds.drop_last();
        lemma_kinds_by_name(before, name);
        let names = kind_names(kinds);
        assert(names[kinds.len() - 1] == lowered(kinds.last().0));
        if kind_names(before).contains(name) {
            let k = choose|k: int| 0 <= k < kind_names(before).len() && kind_names(before)[k] == name;
            assert(names[k] == name);
        }
        if names.contains(name) && name != lowered(kinds.last().0) {
            let k = choose|k: int| 0 <= k < names.len() && names[k] == name;
            assert(kind_names(before)[k] == name);
        }
    }
}

/// Where the names of a request can be told apart in lower case, its tools can be lowered, and
/// the registry knows the lower case name of each of them and no other name.
pub proof fn law_registry_knows_the_offered_tools(
    specs: Seq<ToolSpecView>,
    image_agent_active: bool,
    name: Seq<char>,
)
    requires
        tool_registry(specs, image_agent_active) is Ok,
    ensures
        lowered_tools(specs) is Ok,
        tool_registry(specs, image_agent_active)->Ok_0.dom().contains(name) <==> exists|k: int|
            0 <= k < all_chat_tools(specs).len() && lowered(
                (#[trigger] all_chat_tools(specs)[k]).function.name,
            ) == name,
{
    let kinds = all_tool_kinds(specs, image_agent_active);
    let tools = all_chat_tools(specs);
    let names = tool_names(tools);
    lemma_names_agree(specs, image_agent_active);
    lemma_no_repeat(kind_names(kinds));
    lemma_no_repeat(names);
    lemma_kinds_by_name(kinds, name);
    assert forall|i: int, j: int| 0 <= i < names.len() && 0 <= j < names.len() && i != j implies names[i]
        != names[j] by {
        assert(kind_names(kinds)[i] != kind_names(kinds)[j]);
    }
    if kind_names(kinds).contains(name) {
        let k = choose|k: int| 0 <= k < kind_names(kinds).len() && kind_names(kinds)[k] == name;
        assert(lowered(tools[k].function.name) == name);
    }
    if exists|k: int| 0 <= k < tools.len() && lowered((#[trigger] tools[k]).function.name) == name {
        let k = choose|k: int|
            0 <= k < tools.len() && lowered((#[trigger] tools[k]).function.name) == name;
        assert(kind_names(kinds)[k] == name);
    }
}

} // verus!
