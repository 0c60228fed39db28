//! The catalogue of cloud object types: their names in URLs and on the
//! command line, their tags in the local SQLite store, and the kind of
//! identifier each one uses.

use vstd::prelude::*;

use crate::text::{concat3, owned, str_eq};

verus! {

broadcast use vstd::string::group_string_axioms;

/// Leading part of the SQLite type tag of every generic string object.
pub const GENERIC_STRING_OBJECT_PREFIX: &'static str = "GENERIC_STRING_";

/// Part of the SQLite type tag that marks a JSON-encoded generic string object.
pub const JSON_OBJECT_PREFIX: &'static str = "JSON_";

/// The kinds of JSON documents that are stored as generic string objects.
#[derive(Clone, Copy, Debug, PartialEq, Eq, Structural, Hash)]
pub enum JsonObjectType {
    Preference,
    EnvVarCollection,
    WorkflowEnum,
    AIFact,
    MCPServer,
    AIExecutionProfile,
    TemplatableMCPServer,
    CloudEnvironment,
    ScheduledAmbientAgent,
    CloudAgentConfig,
}

/// How the payload of a generic string object is encoded.
#[derive(Clone, Copy, Debug, PartialEq, Eq, Structural, Hash)]
pub enum GenericStringObjectFormat {
    Json(JsonObjectType),
}

/// Every kind of object that can be stored in the cloud.
#[derive(Clone, Copy, Debug, PartialEq, Eq, Structural, Hash)]
pub enum ObjectType {
    Notebook,
    Workflow,
    Folder,
    GenericStringObject(GenericStringObjectFormat),
}

/// The kind of identifier an object uses; all generic string objects share one.
#[derive(Clone, Copy, Debug, PartialEq, Eq, Structural, Hash)]
pub enum ObjectIdType {
    Notebook,
    Workflow,
    Folder,
    GenericStringObject,
}

/// A name that is no `JsonObjectType`'s tag.
#[derive(Clone, Copy, Debug, PartialEq, Eq)]
pub struct UnknownJsonObjectType;

/// A name that is no `ObjectType`'s name.
#[derive(Clone, Copy, Debug, PartialEq, Eq)]
pub struct UnknownObjectType;

/// The tag of a JSON object type inside SQLite type tags.
pub open spec fn json_type_tag(t: JsonObjectType) -> Seq<char> {
    match t {
        JsonObjectType::Preference => "PREFERENCE"@,
        JsonObjectType::EnvVarCollection => "ENV_VAR_COLLECTION"@,
        JsonObjectType::WorkflowEnum => "WORKFLOW_ENUM"@,
        JsonObjectType::AIFact => "AI_FACT"@,
        JsonObjectType::MCPServer => "MCP_SERVER"@,
        JsonObjectType::AIExecutionProfile => "AI_EXECUTION_PROFILE"@,
        JsonObjectType::TemplatableMCPServer => "TEMPLATABLE_MCP_SERVER"@,
        JsonObjectType::CloudEnvironment => "CLOUD_ENVIRONMENT"@,
        JsonObjectType::ScheduledAmbientAgent => "SCHEDULED_AMBIENT_AGENT"@,
        JsonObjectType::CloudAgentConfig => "CLOUD_AGENT_CONFIG"@,
    }
}

/// The JSON object type whose tag is `s`, if any.
pub open spec fn json_type_from_tag(s: Seq<char>) -> Option<JsonObjectType> {
    if s == "PREFERENCE"@ {
        Some(JsonObjectType::Preference)
    } else if s == "ENV_VAR_COLLECTION"@ {
        Some(JsonObjectType::EnvVarCollection)
    } else if s == "WORKFLOW_ENUM"@ {
        Some(JsonObjectType::WorkflowEnum)
    } else if s == "AI_FACT"@ {
        Some(JsonObjectType::AIFact)
    } else if s == "MCP_SERVER"@ {
        Some(JsonObjectType::MCPServer)
    } else if s == "AI_EXECUTION_PROFILE"@ {
        Some(JsonObjectType::AIExecutionProfile)
    } else if s == "TEMPLATABLE_MCP_SERVER"@ {
        Some(JsonObjectType::TemplatableMCPServer)
    } else if s == "CLOUD_ENVIRONMENT"@ {
        Some(JsonObjectType::CloudEnvironment)
    } else if s == "SCHEDULED_AMBIENT_AGENT"@ {
        Some(JsonObjectType::ScheduledAmbientAgent)
    } else if s == "CLOUD_AGENT_CONFIG"@ {
        Some(JsonObjectType::CloudAgentConfig)
    } else {
        None
    }
}

/// The text of a generic string object format.
pub open spec fn format_text(f: GenericStringObjectFormat) -> Seq<char> {
    match f {
        GenericStringObjectFormat::Json(t) => GENERIC_STRING_OBJECT_PREFIX@ + JSON_OBJECT_PREFIX@
            + json_type_tag(t),
    }
}

/// The name of an object type in URLs and on the command line.
pub open spec fn object_type_name(t: ObjectType) -> Seq<char> {
    match t {
        ObjectType::Notebook => "notebook"@,
        ObjectType::Workflow => "workflow"@,
        ObjectType::Folder => "folder"@,
        ObjectType::GenericStringObject(GenericStringObjectFormat::Json(j)) => match j {
            JsonObjectType::Preference => "preference"@,
            JsonObjectType::EnvVarCollection => "env-vars"@,
            JsonObjectType::WorkflowEnum => "workflow-enum"@,
            JsonObjectType::AIFact => "ai-fact"@,
            JsonObjectType::MCPServer => "mcp-server"@,
            JsonObjectType::AIExecutionProfile => "ai-execution-profile"@,
            JsonObjectType::TemplatableMCPServer => "templatable-mcp-server"@,
            JsonObjectType::CloudEnvironment => "cloud-environment"@,
            JsonObjectType::ScheduledAmbientAgent => "scheduled-ambient-agent"@,
            JsonObjectType::CloudAgentConfig => "cloud-agent-config"@,
        },
    }
}

/// The object type named `s`; "prompt" is an older name of workflows.
pub open spec fn object_type_from_name(s: Seq<char>) -> Option<ObjectType> {
    if s == "notebook"@ {
        Some(ObjectType::Notebook)
    } else if s == "workflow"@ || s == "prompt"@ {
        Some(ObjectType::Workflow)
    } else if s == "folder"@ {
        Some(ObjectType::Folder)
    } else {
        match json_type_from_name(s) {
            Some(j) => Some(ObjectType::GenericStringObject(GenericStringObjectFormat::Json(j))),
            None => None,
        }
    }
}

/// The JSON object type whose object type is named `s`, if any.
pub open spec fn json_type_from_name(s: Seq<char>) -> Option<JsonObjectType> {
    if s == "preference"@ {
        Some(JsonObjectType::Preference)
    } else if s == "env-vars"@ {
        Some(JsonObjectType::EnvVarCollection)
    } else if s == "workflow-enum"@ {
        Some(JsonObjectType::WorkflowEnum)
    } else if s == "ai-fact"@ {
        Some(JsonObjectType::AIFact)
    } else if s == "mcp-server"@ {
        Some(JsonObjectType::MCPServer)
    } else if s == "ai-execution-profile"@ {
        Some(JsonObjectType::AIExecutionProfile)
    } else if s == "templatable-mcp-server"@ {
        Some(JsonObjectType::TemplatableMCPServer)
    } else if s == "cloud-environment"@ {
        Some(JsonObjectType::CloudEnvironment)
    } else if s == "scheduled-ambient-agent"@ {
        Some(JsonObjectType::ScheduledAmbientAgent)
    } else if s == "cloud-agent-config"@ {
        Some(JsonObjectType::CloudAgentConfig)
    } else {
        None
    }
}

/// The tag under which objects of a type are stored in SQLite.
pub open spec fn sqlite_type_text(t: ObjectType) -> Seq<char> {
    match t {
        ObjectType::Notebook => "NOTEBOOK"@,
        ObjectType::Workflow => "WORKFLOW"@,
        ObjectType::Folder => "FOLDER"@,
        ObjectType::GenericStringObject(f) => format_text(f),
    }
}

/// The identifier kind of an object type.
pub open spec fn id_type_of(t: ObjectType) -> ObjectIdType {
    match t {
        ObjectType::Notebook => ObjectIdType::Notebook,
        ObjectType::Workflow => ObjectIdType::Workflow,
        ObjectType::Folder => ObjectIdType::Folder,
        ObjectType::GenericStringObject(_) => ObjectIdType::GenericStringObject,
    }
}

/// The prefix of SQLite hashes of identifiers of a kind.
pub open spec fn sqlite_prefix_text(t: ObjectIdType) -> Seq<char> {
    match t {
        ObjectIdType::Notebook => "Notebook"@,
        ObjectIdType::Workflow => "Workflow"@,
        ObjectIdType::Folder => "Folder"@,
        ObjectIdType::GenericStringObject => "GenericStringObject"@,
    }
}

impl JsonObjectType {
    /// The tag of this type inside SQLite type tags.
    pub fn as_str(&self) -> (s: &'static str)
        ensures
            s@ == json_type_tag(*self),
    {
        match self {
            JsonObjectType::Preference => "PREFERENCE",
            JsonObjectType::EnvVarCollection => "ENV_VAR_COLLECTION",
            JsonObjectType::WorkflowEnum => "WORKFLOW_ENUM",
            JsonObjectType::AIFact => "AI_FACT",
            JsonObjectType::MCPServer => "MCP_SERVER",
            JsonObjectType::AIExecutionProfile => "AI_EXECUTION_PROFILE",
            JsonObjectType::TemplatableMCPServer => "TEMPLATABLE_MCP_SERVER",
            JsonObjectType::CloudEnvironment => "CLOUD_ENVIRONMENT",
            JsonObjectType::ScheduledAmbientAgent => "SCHEDULED_AMBIENT_AGENT",
            JsonObjectType::CloudAgentConfig => "CLOUD_AGENT_CONFIG",
        }
    }
}

impl<'a> TryFrom<&'a str> for JsonObjectType {
    type Error = UnknownJsonObjectType;

    /// The type whose tag is `s`; any other text is refused.
    fn try_from(s: &'a str) -> (r: Result<JsonObjectType, UnknownJsonObjectType>)
        ensures
            match r {
                Ok(t) => json_type_from_tag(s@) == Some(t),
                Err(_) => json_type_from_tag(s@) is None,
            },
    {
        if str_eq(s, "PREFERENCE") {
            Ok(JsonObjectType::Preference)
        } else if str_eq(s, "ENV_VAR_COLLECTION") {
            Ok(JsonObjectType::EnvVarCollection)
        } else if str_eq(s, "WORKFLOW_ENUM") {
            Ok(JsonObjectType::WorkflowEnum)
        } else if str_eq(s, "AI_FACT") {
            Ok(JsonObjectType::AIFact)
        } else if str_eq(s, "MCP_SERVER") {
            Ok(JsonObjectType::MCPServer)
        } else if str_eq(s, "AI_EXECUTION_PROFILE") {
            Ok(JsonObjectType::AIExecutionProfile)
        } else if str_eq(s, "TEMPLATABLE_MCP_SERVER") {
            Ok(JsonObjectType::TemplatableMCPServer)
        } else if str_eq(s, "CLOUD_ENVIRONMENT") {
            Ok(JsonObjectType::CloudEnvironment)
        } else if str_eq(s, "SCHEDULED_AMBIENT_AGENT") {
            Ok(JsonObjectType::ScheduledAmbientAgent)
        } else if str_eq(s, "CLOUD_AGENT_CONFIG") {
            Ok(JsonObjectType::CloudAgentConfig)
        } else {
            Err(UnknownJsonObjectType)
        }
    }

}

impl<'a> vstd::std_specs::convert::TryFromSpecImpl<&'a str> for JsonObjectType {
    open spec fn obeys_try_from_spec() -> bool {
        true
    }

    open spec fn try_from_spec(s: &'a str) -> Result<JsonObjectType, UnknownJsonObjectType> {
        match json_type_from_tag(s@) {
            Some(t) => Ok(t),
            None => Err(UnknownJsonObjectType),
        }
    }
}

impl std::str::FromStr for ObjectType {
    type Err = UnknownObjectType;

    fn from_str(s: &str) -> (r: Result<ObjectType, UnknownObjectType>)
        ensures
            match r {
                Ok(t) => object_type_from_name(s@) == Some(t),
                Err(_) => object_type_from_name(s@) is None,
            },
    {
        ObjectType::from_str(s)
    }
}

impl GenericStringObjectFormat {
    /// The text of this format: the generic prefix, the JSON prefix, then the tag.
    pub fn to_string(&self) -> (s: String)
        ensures
            s@ == format_text(*self),
    {
        match self {
            GenericStringObjectFormat::Json(t) => concat3(
                GENERIC_STRING_OBJECT_PREFIX,
                JSON_OBJECT_PREFIX,
                t.as_str(),
            ),
        }
    }
}

impl ObjectIdType {
    /// The prefix of SQLite hashes of identifiers of this kind.
    pub fn sqlite_prefix(&self) -> (s: &'static str)
        ensures
            s@ == sqlite_prefix_text(*self),
    {
        match self {
            ObjectIdType::Notebook => "Notebook",
            ObjectIdType::Workflow => "Workflow",
            ObjectIdType::Folder => "Folder",
            ObjectIdType::GenericStringObject => "GenericStringObject",
        }
    }
}

impl From<ObjectType> for ObjectIdType {
    fn from(t: ObjectType) -> (r: ObjectIdType)
        ensures
            r == id_type_of(t),
    {
        match t {
            ObjectType::Notebook => ObjectIdType::Notebook,
            ObjectType::Workflow => ObjectIdType::Workflow,
            ObjectType::Folder => ObjectIdType::Folder,
            ObjectType::GenericStringObject(_) => ObjectIdType::GenericStringObject,
        }
    }
}

impl vstd::std_specs::convert::FromSpecImpl<ObjectType> for ObjectIdType {
    open spec fn obeys_from_spec() -> bool {
        true
    }

    open spec fn from_spec(t: ObjectType) -> ObjectIdType {
        id_type_of(t)
    }
}

impl ObjectType {
    /// The object type named `s`.
    pub fn from_str(s: &str) -> (r: Result<ObjectType, UnknownObjectType>)
        ensures
            match r {
                Ok(t) => object_type_from_name(s@) == Some(t),
                Err(_) => object_type_from_name(s@) is None,
            },
    {
        if str_eq(s, "notebook") {
            Ok(ObjectType::Notebook)
        } else if str_eq(s, "workflow") || str_eq(s, "prompt") {
            Ok(ObjectType::Workflow)
        } else if str_eq(s, "folder") {
            Ok(ObjectType::Folder)
        } else {
            match json_type_from_name_exec(s) {
                Some(j) => Ok(ObjectType::GenericStringObject(GenericStringObjectFormat::Json(j))),
                None => Err(UnknownObjectType),
            }
        }
    }

    /// The name of this type in URLs and on the command line.
    pub fn to_string(&self) -> (s: String)
        ensures
            s@ == object_type_name(*self),
    {
        let name: &str = match self {
            ObjectType::Notebook => "notebook",
            ObjectType::Workflow => "workflow",
            ObjectType::Folder => "folder",
            ObjectType::GenericStringObject(GenericStringObjectFormat::Json(j)) => match j {
                JsonObjectType::Preference => "preference",
                JsonObjectType::EnvVarCollection => "env-vars",
                JsonObjectType::WorkflowEnum => "workflow-enum",
                JsonObjectType::AIFact => "ai-fact",
                JsonObjectType::MCPServer => "mcp-server",
                JsonObjectType::AIExecutionProfile => "ai-execution-profile",
                JsonObjectType::TemplatableMCPServer => "templatable-mcp-server",
                JsonObjectType::CloudEnvironment => "cloud-environment",
                JsonObjectType::ScheduledAmbientAgent => "scheduled-ambient-agent",
                JsonObjectType::CloudAgentConfig => "cloud-agent-config",
            },
        };
        owned(name)
    }

    /// The tag under which objects of this type are stored in SQLite.
    pub fn sqlite_object_type_as_str(&self) -> (s: String)
        ensures
            s@ == sqlite_type_text(*self),
    {
        match self {
            ObjectType::Notebook => owned("NOTEBOOK"),
            ObjectType::Workflow => owned("WORKFLOW"),
            ObjectType::Folder => owned("FOLDER"),
            ObjectType::GenericStringObject(f) => f.to_string(),
        }
    }
}

fn json_type_from_name_exec(s: &str) -> (r: Option<JsonObjectType>)
    ensures
        r == json_type_from_name(s@),
{
    if str_eq(s, "preference") {
        Some(JsonObjectType::Preference)
    } else if str_eq(s, "env-vars") {
        Some(JsonObjectType::EnvVarCollection)
    } else if str_eq(s, "workflow-enum") {
        Some(JsonObjectType::WorkflowEnum)
    } else if str_eq(s, "ai-fact") {
        Some(JsonObjectType::AIFact)
    } else if str_eq(s, "mcp-server") {
        Some(JsonObjectType::MCPServer)
    } else if str_eq(s, "ai-execution-profile") {
        Some(JsonObjectType::AIExecutionProfile)
    } else if str_eq(s, "templatable-mcp-server") {
        Some(JsonObjectType::TemplatableMCPServer)
    } else if str_eq(s, "cloud-environment") {
        Some(JsonObjectType::CloudEnvironment)
    } else if str_eq(s, "scheduled-ambient-agent") {
        Some(JsonObjectType::ScheduledAmbientAgent)
    } else if str_eq(s, "cloud-agent-config") {
        Some(JsonObjectType::CloudAgentConfig)
    } else {
        None
    }
}

/// Reading a JSON object type's tag back gives that type.
pub proof fn lemma_json_type_tag_roundtrip(t: JsonObjectType)
    ensures
        json_type_from_tag(json_type_tag(t)) == Some(t),
{
    reveal_strlit("PREFERENCE");
    reveal_strlit("ENV_VAR_COLLECTION");
    reveal_strlit("WORKFLOW_ENUM");
    reveal_strlit("AI_FACT");
    reveal_strlit("MCP_SERVER");
    reveal_strlit("AI_EXECUTION_PROFILE");
    reveal_strlit("TEMPLATABLE_MCP_SERVER");
    reveal_strlit("CLOUD_ENVIRONMENT");
    reveal_strlit("SCHEDULED_AMBIENT_AGENT");
    reveal_strlit("CLOUD_AGENT_CONFIG");
    assert("PREFERENCE"@[0] == 'P');
    assert("PREFERENCE"@.len() == 10);
    assert("ENV_VAR_COLLECTION"@[0] == 'E');
    assert("ENV_VAR_COLLECTION"@.len() == 18);
    assert("WORKFLOW_ENUM"@[0] == 'W');
    assert("WORKFLOW_ENUM"@.len() == 13);
    assert("AI_FACT"@[0] == 'A');
    assert("AI_FACT"@.len() == 7);
    assert("MCP_SERVER"@[0] == 'M');
    assert("MCP_SERVER"@.len() == 10);
    assert("AI_EXECUTION_PROFILE"@[0] == 'A');
    assert("AI_EXECUTION_PROFILE"@.len() == 20);
    assert("TEMPLATABLE_MCP_SERVER"@[0] == 'T');
    assert("TEMPLATABLE_MCP_SERVER"@.len() == 22);
    assert("CLOUD_ENVIRONMENT"@[0] == 'C');
    assert("CLOUD_ENVIRONMENT"@.len() == 17);
    assert("SCHEDULED_AMBIENT_AGENT"@[0] == 'S');
    assert("SCHEDULED_AMBIENT_AGENT"@.len() == 23);
    assert("CLOUD_AGENT_CONFIG"@[0] == 'C');
    assert("CLOUD_AGENT_CONFIG"@.len() == 18);
    match t {
        JsonObjectType::Preference => {},
        JsonObjectType::EnvVarCollection => {},
        JsonObjectType::WorkflowEnum => {},
        JsonObjectType::AIFact => {},
        JsonObjectType::MCPServer => {},
        JsonObjectType::AIExecutionProfile => {},
        JsonObjectType::TemplatableMCPServer => {},
        JsonObjectType::CloudEnvironment => {},
        JsonObjectType::ScheduledAmbientAgent => {},
        JsonObjectType::CloudAgentConfig => {},
    }
}

/// Reading an object type's name back gives that type.
pub proof fn lemma_object_type_name_roundtrip(t: ObjectType)
    ensures
        object_type_from_name(object_type_name(t)) == Some(t),
{
    reveal_strlit("notebook");
    reveal_strlit("workflow");
    reveal_strlit("prompt");
    reveal_strlit("folder");
    reveal_strlit("preference");
    reveal_strlit("env-vars");
    reveal_strlit("workflow-enum");
    reveal_strlit("ai-fact");
    reveal_strlit("mcp-server");
    reveal_strlit("ai-execution-profile");
    reveal_strlit("templatable-mcp-server");
    reveal_strlit("cloud-environment");
    reveal_strlit("scheduled-ambient-agent");
    reveal_strlit("cloud-agent-config");
    assert("notebook"@[0] == 'n');
    assert("notebook"@.len() == 8);
    assert("workflow"@[0] == 'w');
    assert("workflow"@.len() == 8);
    assert("prompt"@[0] == 'p');
    assert("prompt"@.len() == 6);
    assert("folder"@[0] == 'f');
    assert("folder"@.len() == 6);
    assert("preference"@[0] == 'p');
    assert("preference"@.len() == 10);
    assert("env-vars"@[0] == 'e');
    assert("env-vars"@.len() == 8);
    assert("workflow-enum"@[0] == 'w');
    assert("workflow-enum"@.len() == 13);
    assert("ai-fact"@[0] == 'a');
    assert("ai-fact"@.len() == 7);
    assert("mcp-server"@[0] == 'm');
    assert("mcp-server"@.len() == 10);
    assert("ai-execution-profile"@[0] == 'a');
    assert("ai-execution-profile"@.len() == 20);
    assert("templatable-mcp-server"@[0] == 't');
    assert("templatable-mcp-server"@.len() == 22);
    assert("cloud-environment"@[0] == 'c');
    assert("cloud-environment"@.len() == 17);
    assert("scheduled-ambient-agent"@[0] == 's');
    assert("scheduled-ambient-agent"@.len() == 23);
    assert("cloud-agent-config"@[0] == 'c');
    assert("cloud-agent-config"@.len() == 18);
    match t {
        ObjectType::GenericStringObject(GenericStringObjectFormat::Json(j)) => match j {
            JsonObjectType::Preference => {},
            JsonObjectType::EnvVarCollection => {},
            JsonObjectType::WorkflowEnum => {},
            JsonObjectType::AIFact => {},
            JsonObjectType::MCPServer => {},
            JsonObjectType::AIExecutionProfile => {},
            JsonObjectType::TemplatableMCPServer => {},
            JsonObjectType::CloudEnvironment => {},
            JsonObjectType::ScheduledAmbientAgent => {},
            JsonObjectType::CloudAgentConfig => {},
        },
        _ => {},
    }
}

/// Different object types are stored under different SQLite tags.
pub proof fn lemma_sqlite_type_text_injective(a: ObjectType, b: ObjectType)
    requires
        sqlite_type_text(a) == sqlite_type_text(b),
    ensures
        a == b,
{
    reveal_strlit("NOTEBOOK");
    reveal_strlit("WORKFLOW");
    reveal_strlit("FOLDER");
    reveal_strlit("GENERIC_STRING_");
    reveal_strlit("JSON_");
    assert("NOTEBOOK"@[0] == 'N');
    assert("WORKFLOW"@[0] == 'W');
    assert("FOLDER"@[0] == 'F');
    assert("GENERIC_STRING_"@[0] == 'G');
    assert("GENERIC_STRING_"@.len() == 15);
    assert("JSON_"@.len() == 5);
    if let (ObjectType::GenericStringObject(fa), ObjectType::GenericStringObject(fb)) = (a, b) {
        let GenericStringObjectFormat::Json(ja) = fa;
        let GenericStringObjectFormat::Json(jb) = fb;
        let p = GENERIC_STRING_OBJECT_PREFIX@ + JSON_OBJECT_PREFIX@;
        assert((p + json_type_tag(ja)).subrange(20, (p + json_type_tag(ja)).len() as int)
            =~= json_type_tag(ja));
        assert((p + json_type_tag(jb)).subrange(20, (p + json_type_tag(jb)).len() as int)
            =~= json_type_tag(jb));
        assert(sqlite_type_text(a) =~= p + json_type_tag(ja));
        assert(sqlite_type_text(b) =~= p + json_type_tag(jb));
        lemma_json_type_tag_roundtrip(ja);
        lemma_json_type_tag_roundtrip(jb);
    } else if let ObjectType::GenericStringObject(f) = a {
        assert(sqlite_type_text(a)[0] == 'G');
    } else if let ObjectType::GenericStringObject(f) = b {
        assert(sqlite_type_text(b)[0] == 'G');
    }
}

} // verus!
