use vstd::prelude::*;

verus! {

/// Identifier of an entity in the remote world.
pub type EntityId = u64;

/// What `char::is_alphanumeric` answers for a character.
pub uninterp spec fn is_alphanumeric_char(c: char) -> bool;

/// ASCII letters and digits.
pub open spec fn is_ascii_alnum(c: char) -> bool {
    ('a' <= c && c <= 'z') || ('A' <= c && c <= 'Z') || ('0' <= c && c <= '9')
}

/// Relies on `char::is_alphanumeric`: alphabetic or numeric in Unicode's
/// sense, which among ASCII characters are the letters and the digits.
#[verifier::external_body]
fn is_alphanumeric(c: char) -> (r: bool)
    ensures
        r == is_alphanumeric_char(c),
        (c as u32) < 128 ==> r == is_ascii_alnum(c),
{
    c.is_alphanumeric()
}

/// A character allowed in a component type identifier: alphanumeric, `_` or
/// the `:` of a module path. Among ASCII characters the alphanumeric ones are
/// the letters and digits.
pub open spec fn component_char_ok(c: char) -> bool {
    if (c as u32) < 128 {
        is_ascii_alnum(c) || c == '_' || c == ':'
    } else {
        is_alphanumeric_char(c)
    }
}

/// What is wrong with a component type identifier, as the message reporting it.
pub open spec fn component_id_problem(id: Seq<char>) -> Option<Seq<char>> {
    if id.len() == 0 {
        Some("Component type ID cannot be empty"@)
    } else if !(forall|i: int| 0 <= i < id.len() ==> component_char_ok(#[trigger] id[i])) {
        Some("Component type ID contains invalid characters"@)
    } else {
        None
    }
}

/// Checks that an entity identifier is usable: zero is reserved.
pub fn validate_entity_id(id: EntityId) -> (r: Result<(), String>)
    ensures
        r is Ok <==> id != 0,
        r matches Err(m) ==> m@ == "Entity ID cannot be zero"@,
{
    if id == 0 {
        Err(String::from_str("Entity ID cannot be zero"))
    } else {
        Ok(())
    }
}

/// Checks a component type identifier: not empty, and made of allowed
/// characters only.
pub fn validate_component_type_id(type_id: &str) -> (r: Result<(), String>)
    ensures
        r is Ok <==> type_id@.len() > 0 && forall|i: int|
            0 <= i < type_id@.len() ==> component_char_ok(#[trigger] type_id@[i]),
        r is Ok <==> component_id_problem(type_id@) is None,
        r matches Err(m) ==> Some(m@) == component_id_problem(type_id@),
{
    let n = type_id.unicode_len();
    if n == 0 {
        return Err(String::from_str("Component type ID cannot be empty"));
    }
    let mut i: usize = 0;
    while i < n
        invariant
            n == type_id@.len(),
            i <= n,
            forall|k: int| 0 <= k < i ==> component_char_ok(#[trigger] type_id@[k]),
        decreases n - i,
    {
        let c = type_id.get_char(i);
        if !(is_alphanumeric(c) || c == '_' || c == ':') {
            assert(!component_char_ok(type_id@[i as int]));
            return Err(String::from_str("Component type ID contains invalid characters"));
        }
        i = i + 1;
    }
    Ok(())
}

/// Comparison applied by a component filter.
#[derive(Debug, Clone, Copy, PartialEq, Eq, Structural)]
#[non_exhaustive]
pub enum FilterOp {
    Equal,
    NotEqual,
    GreaterThan,
    GreaterThanOrEqual,
    LessThan,
    LessThanOrEqual,
    Contains,
    Regex,
}

impl FilterOp {
    /// Name of the operation on the wire.
    pub fn wire_name(&self) -> (r: &'static str)
        ensures
            *self == FilterOp::Equal ==> r@ == "eq"@,
            *self == FilterOp::NotEqual ==> r@ == "ne"@,
            *self == FilterOp::GreaterThan ==> r@ == "gt"@,
            *self == FilterOp::GreaterThanOrEqual ==> r@ == "gte"@,
            *self == FilterOp::LessThan ==> r@ == "lt"@,
            *self == FilterOp::LessThanOrEqual ==> r@ == "lte"@,
            *self == FilterOp::Contains ==> r@ == "contains"@,
            *self == FilterOp::Regex ==> r@ == "regex"@,
    {
        match self {
            FilterOp::Equal => "eq",
            FilterOp::NotEqual => "ne",
            FilterOp::GreaterThan => "gt",
            FilterOp::GreaterThanOrEqual => "gte",
            FilterOp::LessThan => "lt",
            FilterOp::LessThanOrEqual => "lte",
            FilterOp::Contains => "contains",
            FilterOp::Regex => "regex",
        }
    }
}

/// The closed set of error codes of the remote debug protocol.
#[derive(Debug, Clone, Copy, PartialEq, Eq, Structural)]
#[non_exhaustive]
pub enum BrpErrorCode {
    EntityNotFound,
    ComponentNotFound,
    InvalidComponentData,
    InvalidQuery,
    PermissionDenied,
    InternalError,
    Timeout,
}

impl BrpErrorCode {
    /// Name of the code on the wire.
    pub fn wire_name(&self) -> (r: &'static str)
        ensures
            *self == BrpErrorCode::EntityNotFound ==> r@ == "entity_not_found"@,
            *self == BrpErrorCode::ComponentNotFound ==> r@ == "component_not_found"@,
            *self == BrpErrorCode::InvalidComponentData ==> r@ == "invalid_component_data"@,
            *self == BrpErrorCode::InvalidQuery ==> r@ == "invalid_query"@,
            *self == BrpErrorCode::PermissionDenied ==> r@ == "permission_denied"@,
            *self == BrpErrorCode::InternalError ==> r@ == "internal_error"@,
            *self == BrpErrorCode::Timeout ==> r@ == "timeout"@,
    {
        match self {
            BrpErrorCode::EntityNotFound => "entity_not_found",
            BrpErrorCode::ComponentNotFound => "component_not_found",
            BrpErrorCode::InvalidComponentData => "invalid_component_data",
            BrpErrorCode::InvalidQuery => "invalid_query",
            BrpErrorCode::PermissionDenied => "permission_denied",
            BrpErrorCode::InternalError => "internal_error",
            BrpErrorCode::Timeout => "timeout",
        }
    }

    /// Text for an operator.
    pub fn description(&self) -> (r: &'static str)
        ensures
            *self == BrpErrorCode::EntityNotFound ==> r@ == "Entity not found"@,
            *self == BrpErrorCode::ComponentNotFound ==> r@ == "Component not found"@,
            *self == BrpErrorCode::InvalidComponentData ==> r@ == "Invalid component data"@,
            *self == BrpErrorCode::InvalidQuery ==> r@ == "Invalid query"@,
            *self == BrpErrorCode::PermissionDenied ==> r@ == "Permission denied"@,
            *self == BrpErrorCode::InternalError ==> r@ == "Internal error"@,
            *self == BrpErrorCode::Timeout ==> r@ == "Request timeout"@,
    {
        match self {
            BrpErrorCode::EntityNotFound => "Entity not found",
            BrpErrorCode::ComponentNotFound => "Component not found",
            BrpErrorCode::InvalidComponentData => "Invalid component data",
            BrpErrorCode::InvalidQuery => "Invalid query",
            BrpErrorCode::PermissionDenied => "Permission denied",
            BrpErrorCode::InternalError => "Internal error",
            BrpErrorCode::Timeout => "Request timeout",
        }
    }
}

/// Name component.
#[derive(Debug, Clone)]
pub struct Name {
    pub name: String,
}

/// Visibility component.
#[derive(Debug, Clone, Copy, PartialEq, Eq, Structural)]
pub struct Visibility {
    pub is_visible: bool,
}

/// Compares a component value with a filter's value.
#[derive(Debug, Clone)]
pub struct ComponentFilter {
    pub component: String,
    /// Path within the component, as `position.x`.
    pub field: Option<String>,
    pub op: FilterOp,
    /// The value compared against, as JSON text.
    pub value: String,
}

/// Which entities a query selects.
#[derive(Debug, Clone)]
pub struct QueryFilter {
    pub with: Option<Vec<String>>,
    pub without: Option<Vec<String>>,
    pub where_clause: Option<Vec<ComponentFilter>>,
}

/// The operations of the remote debug protocol. Component values are JSON
/// text keyed by component type identifier.
#[derive(Debug, Clone)]
pub enum BrpRequest {
    Query { filter: Option<QueryFilter>, limit: Option<usize> },
    Get { entity: EntityId, components: Option<Vec<String>> },
    SetComponents { entity: EntityId, components: Vec<(String, String)> },
    Spawn { components: Vec<(String, String)> },
    Destroy { entity: EntityId },
    ListComponents,
    ListEntities { filter: Option<QueryFilter> },
    Screenshot {
        path: Option<String>,
        warmup_duration: Option<u64>,
        capture_delay: Option<u64>,
        wait_for_render: Option<bool>,
        description: Option<String>,
    },
    SpawnEntity { components: Vec<(String, String)> },
    ModifyEntity { entity_id: EntityId, components: Vec<(String, String)> },
    DeleteEntity { entity_id: EntityId },
    QueryEntity { entity_id: EntityId },
}

pub open spec fn component_keys(v: Seq<(String, String)>) -> Seq<Seq<char>> {
    v.map_values(|e: (String, String)| e.0@)
}

/// The problem of the first bad key from `i` on, if any.
pub open spec fn first_key_problem(keys: Seq<Seq<char>>, i: int) -> Option<Seq<char>>
    decreases keys.len() - i,
{
    if i < 0 || i >= keys.len() {
        None
    } else if component_id_problem(keys[i]) is Some {
        component_id_problem(keys[i])
    } else {
        first_key_problem(keys, i + 1)
    }
}

/// What is wrong with a request, as the message reporting it: a zero entity of
/// `Get`, `Destroy` or `SetComponents`, else the first bad component key of
/// `SetComponents` or `Spawn`. Other requests carry nothing to check.
pub open spec fn request_problem(req: BrpRequest) -> Option<Seq<char>> {
    match req {
        BrpRequest::Get { entity, .. } => if entity == 0 {
            Some("Entity ID cannot be zero"@)
        } else {
            None
        },
        BrpRequest::Destroy { entity } => if entity == 0 {
            Some("Entity ID cannot be zero"@)
        } else {
            None
        },
        BrpRequest::SetComponents { entity, components } => if entity == 0 {
            Some("Entity ID cannot be zero"@)
        } else {
            first_key_problem(component_keys(components@), 0)
        },
        BrpRequest::Spawn { components } => first_key_problem(component_keys(components@), 0),
        _ => None,
    }
}

fn validate_keys(components: &Vec<(String, String)>) -> (r: Result<(), String>)
    ensures
        r is Ok <==> first_key_problem(component_keys(components@), 0) is None,
        r matches Err(m) ==> Some(m@) == first_key_problem(component_keys(components@), 0),
{
    let ghost keys = component_keys(components@);
    let mut i: usize = 0;
    while i < components.len()
        invariant
            i <= components@.len(),
            keys == component_keys(components@),
            first_key_problem(keys, 0) == first_key_problem(keys, i as int),
        decreases components@.len() - i,
    {
        assert(keys[i as int] == components@[i as int].0@);
        match validate_component_type_id(components[i].0.as_str()) {
            Ok(()) => {},
            Err(m) => {
                return Err(m);
            },
        }
        i = i + 1;
    }
    Ok(())
}

/// Checks the identifiers a request carries.
pub fn validate_request(request: &BrpRequest) -> (r: Result<(), String>)
    ensures
        r is Ok <==> request_problem(*request) is None,
        r matches Err(m) ==> Some(m@) == request_problem(*request),
{
    match request {
        BrpRequest::Get { entity, .. } => validate_entity_id(*entity),
        BrpRequest::Destroy { entity } => validate_entity_id(*entity),
        BrpRequest::SetComponents { entity, components } => {
            match validate_entity_id(*entity) {
                Ok(()) => {},
                Err(m) => {
                    return Err(m);
                },
            }
            validate_keys(components)
        },
        BrpRequest::Spawn { components } => validate_keys(components),
        _ => Ok(()),
    }
}

} // verus!
