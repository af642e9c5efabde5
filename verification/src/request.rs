//! What a request brings to an evaluation: the attributes of the caller's
//! token and of the object that is acted upon.

use vstd::prelude::*;
use vstd::hash_map::StringHashMap;

verus! {

/// Attributes associated with the token that the user supplied with a request.
pub trait Token {
    /// The API attributes of the token, by name.
    spec fn api_attributes(&self) -> Map<Seq<char>, Seq<char>>;

    /// The names of the roles that the token covers.
    spec fn roles(&self) -> Set<Seq<char>>;

    /// Returns the API attribute with the given `name`, if it exists.
    fn get_api_attribute(&self, name: &str) -> (value: Option<&str>)
        ensures
            match value {
                Some(v) => self.api_attributes().contains_key(name@) && self.api_attributes()[name@] == v@,
                None => !self.api_attributes().contains_key(name@),
            },
    ;

    /// Returns whether the token covers the given role.
    fn has_role(&self, role_name: &str) -> (held: bool)
        ensures
            held == self.roles().contains(role_name@),
    ;
}

/// Attributes associated with the target object of a request.
pub trait Target {
    /// The attributes of the target, by name.
    spec fn attributes(&self) -> Map<Seq<char>, Seq<char>>;

    /// Returns the target attribute with the given `name`, if it exists.
    fn get_attribute(&self, name: &str) -> (value: Option<&str>)
        ensures
            match value {
                Some(v) => self.attributes().contains_key(name@) && self.attributes()[name@] == v@,
                None => !self.attributes().contains_key(name@),
            },
    ;
}

/// The target without any attribute.
impl Target for () {
    open spec fn attributes(&self) -> Map<Seq<char>, Seq<char>> {
        Map::empty()
    }

    fn get_attribute(&self, _name: &str) -> (value: Option<&str>) {
        None
    }
}

/// A target whose attributes are kept in a map from name to value.
pub struct AttributeMap {
    entries: StringHashMap<String>,
}

impl View for AttributeMap {
    type V = Map<Seq<char>, Seq<char>>;

    closed spec fn view(&self) -> Map<Seq<char>, Seq<char>> {
        self.entries@.map_values(|v: String| v@)
    }
}

impl AttributeMap {
    /// A map without any attribute.
    pub fn new() -> (map: Self)
        ensures
            map@ == Map::<Seq<char>, Seq<char>>::empty(),
    {
        let map = AttributeMap { entries: StringHashMap::new() };
        assert(map@ =~= Map::<Seq<char>, Seq<char>>::empty());
        map
    }

    /// Sets the attribute `name` to `value`, in place of an earlier value.
    pub fn insert(&mut self, name: String, value: String)
        ensures
            final(self)@ == old(self)@.insert(name@, value@),
    {
        self.entries.insert(name, value);
        assert(self@ =~= old(self)@.insert(name@, value@));
    }
}

impl Target for AttributeMap {
    open spec fn attributes(&self) -> Map<Seq<char>, Seq<char>> {
        self@
    }

    fn get_attribute(&self, name: &str) -> (value: Option<&str>) {
        match self.entries.get(name) {
            Some(v) => Some(v.as_str()),
            None => None,
        }
    }
}

/// Whether two strings hold the same characters.
pub(crate) fn same_text(a: &str, b: &str) -> (same: bool)
    ensures
        same == (a@ == b@),
{
    a.to_owned() == b.to_owned()
}

/// A token that is given by the list of its roles and the map of its API
/// attributes.
pub struct SimpleToken {
    pub roles: Vec<String>,
    pub api_attrs: AttributeMap,
}

impl Token for SimpleToken {
    open spec fn api_attributes(&self) -> Map<Seq<char>, Seq<char>> {
        self.api_attrs@
    }

    open spec fn roles(&self) -> Set<Seq<char>> {
        Set::new(|role: Seq<char>| exists|i: int| 0 <= i < self.roles@.len() && self.roles@[i]@ == role)
    }

    fn get_api_attribute(&self, name: &str) -> (value: Option<&str>) {
        self.api_attrs.get_attribute(name)
    }

    fn has_role(&self, role_name: &str) -> (held: bool) {
        let mut i: usize = 0;
        while i < self.roles.len()
            invariant
                i <= self.roles@.len(),
                forall|j: int| 0 <= j < i ==> self.roles@[j]@ != role_name@,
            decreases self.roles@.len() - i,
        {
            if same_text(self.roles[i].as_str(), role_name) {
                return true;
            }
            i += 1;
        }
        false
    }
}

/// Model of a [`Request`]: what an evaluation can learn from it.
pub struct RequestModel {
    pub roles: Set<Seq<char>>,
    pub api_attributes: Map<Seq<char>, Seq<char>>,
    pub target_attributes: Map<Seq<char>, Seq<char>>,
}

/// Attributes belonging to a single request.
pub struct Request<'a, T: Token, G: Target> {
    /// Attributes associated with the token that the user supplied.
    pub token: &'a T,
    /// Attributes associated with the target object of the request.
    pub target: &'a G,
}

impl<'a, T: Token, G: Target> View for Request<'a, T, G> {
    type V = RequestModel;

    open spec fn view(&self) -> RequestModel {
        RequestModel {
            roles: self.token.roles(),
            api_attributes: self.token.api_attributes(),
            target_attributes: self.target.attributes(),
        }
    }
}

impl<'a, T: Token> Request<'a, T, ()> {
    /// Creates a request for the given token, with a target without attributes.
    pub fn new(token: &'a T) -> (req: Self)
        ensures
            req.token == token,
            req@ == (RequestModel {
                roles: token.roles(),
                api_attributes: token.api_attributes(),
                target_attributes: Map::empty(),
            }),
    {
        Request { token, target: &() }
    }
}

impl<'a, T: Token, G: Target> Request<'a, T, G> {
    /// Sets the target of this request.
    pub fn with_target<H: Target>(self, target: &'a H) -> (req: Request<'a, T, H>)
        ensures
            req.token == self.token,
            req.target == target,
            req@ == (RequestModel { target_attributes: target.attributes(), ..self@ }),
    {
        Request { token: self.token, target }
    }
}

/// The attribute that a right-hand side refers to: the name in `%(name)s`,
/// where that form spans the whole text.
pub open spec fn attribute_reference(rhs: Seq<char>) -> Option<Seq<char>> {
    if rhs.len() >= 4 && rhs[0] == '%' && rhs[1] == '(' && rhs[rhs.len() - 2] == ')' && rhs[rhs.len() - 1] == 's' {
        Some(rhs.subrange(2, rhs.len() - 2))
    } else {
        None
    }
}

/// The text that a right-hand side stands for: itself, or the value of the
/// target attribute that it refers to; nothing where that attribute is missing.
pub open spec fn resolved(rhs: Seq<char>, attributes: Map<Seq<char>, Seq<char>>) -> Option<Seq<char>> {
    match attribute_reference(rhs) {
        None => Some(rhs),
        Some(name) => if attributes.contains_key(name) {
            Some(attributes[name])
        } else {
            None
        },
    }
}

/// Resolves a reference to a target attribute, in the form `%(name)s`, on the
/// right-hand side of a check. Any other text is returned as it is.
pub fn resolve_target_attr_refs<'r, 'i: 'r, 't: 'r, G: Target>(input: &'i str, target: &'t G) -> (out: Option<&'r str>)
    ensures
        match resolved(input@, target.attributes()) {
            Some(text) => out matches Some(o) && o@ == text,
            None => out is None,
        },
{
    let len: usize = input.unicode_len();
    if len >= 4 && input.get_char(0) == '%' && input.get_char(1) == '(' && input.get_char(len - 2) == ')'
        && input.get_char(len - 1) == 's' {
        let name = input.substring_char(2, len - 2);
        target.get_attribute(name)
    } else {
        Some(input)
    }
}

} // verus!
