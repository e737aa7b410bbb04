//! Per-key access control: a permission record holds four sets of principal
//! names, one per (read|write) x (local|external) domain.  The literal
//! `authed` admits any authenticated user of the domain; the literal `any`
//! in a *local* set bypasses authentication entirely.

use vstd::prelude::*;

use crate::json::{Entry, JsonData, JsonValue};
use crate::json::{contains_string, obj_lookup, pairs_view, seq_contains_string, str_eq};

verus! {

/// Permission gating a value.
#[derive(Debug, Clone, PartialEq)]
pub struct Permission {
    pub read_a_users: Vec<String>,
    pub read_g_users: Vec<String>,
    pub write_a_users: Vec<String>,
    pub write_g_users: Vec<String>,
}

/// User authentication state carried by a session.
#[derive(Debug, Clone, PartialEq)]
pub struct UserAuthentication {
    pub is_authed: bool,
    pub name: String,
    pub domain: String,
}

impl UserAuthentication {
    /// Create a completely fresh, unauthenticated user.
    pub fn new() -> (r: Self)
        ensures
            !r.is_authed,
            r.name@ == Seq::<char>::empty(),
            r.domain@ == Seq::<char>::empty(),
    {
        Self { is_authed: false, name: String::new(), domain: String::new() }
    }
}

/// What a permission check decides for one axis: `None` means the domain
/// string is not a known domain.
pub open spec fn spec_check(
    a_list: Seq<String>,
    g_list: Seq<String>,
    is_authed: bool,
    user: Seq<char>,
    domain: Seq<char>,
) -> Option<bool> {
    if seq_contains_string(a_list, "any"@) {
        Some(true)
    } else if !is_authed {
        Some(false)
    } else if domain == "a_auth"@ {
        Some(seq_contains_string(a_list, "authed"@) || seq_contains_string(a_list, user))
    } else if domain == "g_auth"@ {
        Some(seq_contains_string(g_list, "authed"@) || seq_contains_string(g_list, user))
    } else {
        None
    }
}

/// `any` in the local set admits every principal, authenticated or not,
/// of either domain.
pub proof fn lemma_any_admits_all(
    a_list: Seq<String>,
    g_list: Seq<String>,
    is_authed: bool,
    user: Seq<char>,
    domain: Seq<char>,
)
    requires
        seq_contains_string(a_list, "any"@),
    ensures
        spec_check(a_list, g_list, is_authed, user, domain) == Some(true),
{
}

/// Split a permission list (a sequence of `[domain, name]` pairs) into the
/// local and external name lists; `None` when any element is malformed.
pub open spec fn spec_parse_perm_list(items: Seq<JsonData>) -> Option<(Seq<Seq<char>>, Seq<
    Seq<char>,
>)>
    decreases items.len(),
{
    if items.len() == 0 {
        Some((Seq::empty(), Seq::empty()))
    } else {
        match spec_parse_perm_list(items.drop_last()) {
            None => None,
            Some((a, g)) => match items.last() {
                JsonData::Arr(pair) => {
                    if pair.len() != 2 {
                        None
                    } else {
                        match pair[1] {
                            JsonData::Str(nm) => {
                                if pair[0] == JsonData::Str("a_user"@) {
                                    Some((a.push(nm), g))
                                } else if pair[0] == JsonData::Str("g_user"@) {
                                    Some((a, g.push(nm)))
                                } else {
                                    None
                                }
                            },
                            _ => None,
                        }
                    }
                },
                _ => None,
            },
        }
    }
}

/// Parse a whole permission object: it must hold `read` and `write`, each
/// an array of well-formed pairs.
pub open spec fn spec_parse_permission(v: JsonData) -> Option<(
    (Seq<Seq<char>>, Seq<Seq<char>>),
    (Seq<Seq<char>>, Seq<Seq<char>>),
)> {
    match v {
        JsonData::Obj(entries) => {
            match (obj_lookup(entries, "read"@), obj_lookup(entries, "write"@)) {
                (Some(JsonData::Arr(r)), Some(JsonData::Arr(w))) => {
                    match (spec_parse_perm_list(r), spec_parse_perm_list(w)) {
                        (Some(rp), Some(wp)) => Some((rp, wp)),
                        _ => None,
                    }
                },
                _ => None,
            }
        },
        _ => None,
    }
}

/// The views of the strings in a list.
pub open spec fn strings_view(s: Seq<String>) -> Seq<Seq<char>> {
    s.map_values(|x: String| x@)
}

impl Permission {
    /// The four name lists, as character sequences.
    pub open spec fn spec_lists(&self) -> (
        (Seq<Seq<char>>, Seq<Seq<char>>),
        (Seq<Seq<char>>, Seq<Seq<char>>),
    ) {
        (
            (strings_view(self.read_a_users@), strings_view(self.read_g_users@)),
            (strings_view(self.write_a_users@), strings_view(self.write_g_users@)),
        )
    }

    /// Generate permissions from a JSON object.
    pub fn new(object: &JsonValue, name: &str) -> (r: Result<Self, String>)
        ensures
            match spec_parse_permission(object@) {
                Some(lists) => r matches Ok(p) && p.spec_lists() == lists,
                None => r is Err,
            },
    {
        let entries = match object {
            JsonValue::Object(entries) => entries,
            _ => {
                return Err("value passed to make permission is not an object".to_owned());
            },
        };
        let read_list = match crate::json::obj_get(entries, "read") {
            Some(JsonValue::Array(items)) => items,
            Some(_) => {
                return Err("read permissions are not in an array".to_owned());
            },
            None => {
                return Err("no read permissions given".to_owned());
            },
        };
        let write_list = match crate::json::obj_get(entries, "write") {
            Some(JsonValue::Array(items)) => items,
            Some(_) => {
                return Err("write permissions are not in an array".to_owned());
            },
            None => {
                return Err("no write permissions given".to_owned());
            },
        };
        let read_parsed = match parse_perm_list(read_list) {
            Ok(p) => p,
            Err(e) => {
                return Err(e);
            },
        };
        let write_parsed = match parse_perm_list(write_list) {
            Ok(p) => p,
            Err(e) => {
                return Err(e);
            },
        };
        let _ = name;
        Ok(
            Self {
                read_a_users: read_parsed.0,
                read_g_users: read_parsed.1,
                write_a_users: write_parsed.0,
                write_g_users: write_parsed.1,
            },
        )
    }

    /// Check if a user is allowed to read the gated item.
    pub fn check_read(&self, is_authed: bool, user: &String, domain: &String) -> (r: Result<
        bool,
        String,
    >)
        ensures
            match spec_check(self.read_a_users@, self.read_g_users@, is_authed, user@, domain@) {
                Some(b) => r == Ok::<bool, String>(b),
                None => r is Err,
            },
    {
        check_lists(&self.read_a_users, &self.read_g_users, is_authed, user, domain)
    }

    /// Check if a user is allowed to write to the gated item.
    pub fn check_write(&self, is_authed: bool, user: &String, domain: &String) -> (r: Result<
        bool,
        String,
    >)
        ensures
            match spec_check(self.write_a_users@, self.write_g_users@, is_authed, user@, domain@) {
                Some(b) => r == Ok::<bool, String>(b),
                None => r is Err,
            },
    {
        check_lists(&self.write_a_users, &self.write_g_users, is_authed, user, domain)
    }

    /// Wrapper around `check_read` for `UserAuthentication`.
    pub fn check_user_read(&self, user: &UserAuthentication) -> (r: Result<bool, String>)
        ensures
            match spec_check(
                self.read_a_users@,
                self.read_g_users@,
                user.is_authed,
                user.name@,
                user.domain@,
            ) {
                Some(b) => r == Ok::<bool, String>(b),
                None => r is Err,
            },
    {
        self.check_read(user.is_authed, &user.name, &user.domain)
    }

    /// Wrapper around `check_write` for `UserAuthentication`.
    pub fn check_user_write(&self, user: &UserAuthentication) -> (r: Result<bool, String>)
        ensures
            match spec_check(
                self.write_a_users@,
                self.write_g_users@,
                user.is_authed,
                user.name@,
                user.domain@,
            ) {
                Some(b) => r == Ok::<bool, String>(b),
                None => r is Err,
            },
    {
        self.check_write(user.is_authed, &user.name, &user.domain)
    }
}

impl Default for Permission {
    /// The default permission: `any` in all four sets.
    fn default() -> (r: Permission)
        ensures
            r.read_a_users@.len() == 1 && r.read_a_users@[0]@ == "any"@,
            r.read_g_users@.len() == 1 && r.read_g_users@[0]@ == "any"@,
            r.write_a_users@.len() == 1 && r.write_a_users@[0]@ == "any"@,
            r.write_g_users@.len() == 1 && r.write_g_users@[0]@ == "any"@,
    {
        Permission {
            read_a_users: vec!["any".to_owned()],
            read_g_users: vec!["any".to_owned()],
            write_a_users: vec!["any".to_owned()],
            write_g_users: vec!["any".to_owned()],
        }
    }
}

/// The JSON form of one permission list: the local pairs, then the
/// external pairs, each a `[domain, name]` array.
pub open spec fn perm_list_json(a: Seq<Seq<char>>, g: Seq<Seq<char>>) -> Seq<JsonData> {
    Seq::new(
        a.len(),
        |i: int| JsonData::Arr(seq![JsonData::Str("a_user"@), JsonData::Str(a[i])]),
    ) + Seq::new(
        g.len(),
        |i: int| JsonData::Arr(seq![JsonData::Str("g_user"@), JsonData::Str(g[i])]),
    )
}

/// The JSON form of a whole permission record.
pub open spec fn spec_perm_json(p: Permission) -> JsonData {
    JsonData::Obj(
        seq![
            (
                "read"@,
                JsonData::Arr(
                    perm_list_json(strings_view(p.read_a_users@), strings_view(p.read_g_users@)),
                ),
            ),
            (
                "write"@,
                JsonData::Arr(
                    perm_list_json(strings_view(p.write_a_users@), strings_view(p.write_g_users@)),
                ),
            ),
        ],
    )
}

/// One `[domain, name]` pair as a JSON value.
fn perm_pair(domain: &str, nm: &str) -> (r: JsonValue)
    ensures
        r@ == JsonData::Arr(seq![JsonData::Str(domain@), JsonData::Str(nm@)]),
{
    let mut items: Vec<JsonValue> = Vec::new();
    items.push(JsonValue::Str(domain.to_owned()));
    items.push(JsonValue::Str(nm.to_owned()));
    proof {
        crate::json::lemma_seq_view_len(items@);
        crate::json::lemma_seq_view_index(items@, 0);
        crate::json::lemma_seq_view_index(items@, 1);
        assert(crate::json::seq_view(items@) =~= seq![
            JsonData::Str(domain@),
            JsonData::Str(nm@),
        ]);
    }
    JsonValue::Array(items)
}

/// One permission list as a JSON value.
#[verifier::loop_isolation(false)]
fn perm_list(a: &Vec<String>, g: &Vec<String>) -> (r: JsonValue)
    ensures
        r@ == JsonData::Arr(perm_list_json(strings_view(a@), strings_view(g@))),
{
    let mut items: Vec<JsonValue> = Vec::new();
    let mut i: usize = 0;
    while i < a.len()
        invariant
            i <= a.len(),
            items@.len() == i,
            forall|j: int| #![trigger items@[j]] 0 <= j < i ==> items@[j]@ == JsonData::Arr(
                seq![JsonData::Str("a_user"@), JsonData::Str(a@[j]@)],
            ),
        decreases a.len() - i,
    {
        items.push(perm_pair("a_user", a[i].as_str()));
        i += 1;
    }
    let mut k: usize = 0;
    while k < g.len()
        invariant
            k <= g.len(),
            items@.len() == a@.len() + k,
            forall|j: int| #![trigger items@[j]] 0 <= j < a@.len() ==> items@[j]@ == JsonData::Arr(
                seq![JsonData::Str("a_user"@), JsonData::Str(a@[j]@)],
            ),
            forall|j: int| #![trigger items@[a@.len() + j]] 0 <= j < k ==> items@[a@.len() + j]@
                == JsonData::Arr(seq![JsonData::Str("g_user"@), JsonData::Str(g@[j]@)]),
        decreases g.len() - k,
    {
        items.push(perm_pair("g_user", g[k].as_str()));
        k += 1;
    }
    proof {
        crate::json::lemma_seq_view_len(items@);
        assert forall|j: int| 0 <= j < items@.len() implies #[trigger] crate::json::seq_view(
            items@,
        )[j] == perm_list_json(strings_view(a@), strings_view(g@))[j] by {
            crate::json::lemma_seq_view_index(items@, j);
            if j >= a@.len() {
                assert(items@[a@.len() + (j - a@.len())]@ == JsonData::Arr(
                    seq![JsonData::Str("g_user"@), JsonData::Str(g@[j - a@.len()]@)],
                ));
            }
        }
        assert(crate::json::seq_view(items@) =~= perm_list_json(
            strings_view(a@),
            strings_view(g@),
        ));
    }
    JsonValue::Array(items)
}

impl Permission {
    /// The record's JSON form, as persisted inside item files.
    pub fn create_json(&self) -> (r: JsonValue)
        ensures
            r@ == spec_perm_json(*self),
    {
        let read_list = perm_list(&self.read_a_users, &self.read_g_users);
        let write_list = perm_list(&self.write_a_users, &self.write_g_users);
        let mut entries: Vec<Entry> = Vec::new();
        proof {
            assert(pairs_view(entries@) =~= Seq::<(Seq<char>, JsonData)>::empty());
        }
        crate::session::push_field(&mut entries, "read", read_list);
        crate::session::push_field(&mut entries, "write", write_list);
        proof {
            assert(pairs_view(entries@) =~= spec_perm_json(*self)->Obj_0);
        }
        JsonValue::Object(entries)
    }
}

/// Parsing a built permission list yields back the two name lists.
proof fn lemma_perm_list_round_trip(a: Seq<Seq<char>>, g: Seq<Seq<char>>)
    ensures
        spec_parse_perm_list(perm_list_json(a, g)) == Some((a, g)),
    decreases a.len() + g.len(),
{
    reveal_strlit("a_user");
    reveal_strlit("g_user");
    assert("a_user"@.len() == 6);
    assert("a_user"@[0] == 'a');
    assert("g_user"@[0] == 'g');
    let items = perm_list_json(a, g);
    if g.len() > 0 {
        lemma_perm_list_round_trip(a, g.drop_last());
        assert(items.drop_last() =~= perm_list_json(a, g.drop_last()));
        assert(items.last() == JsonData::Arr(
            seq![JsonData::Str("g_user"@), JsonData::Str(g.last())],
        ));
        assert(a =~= a);
        assert(g.drop_last().push(g.last()) =~= g);
    } else if a.len() > 0 {
        lemma_perm_list_round_trip(a.drop_last(), g);
        assert(items.drop_last() =~= perm_list_json(a.drop_last(), g));
        assert(items.last() == JsonData::Arr(
            seq![JsonData::Str("a_user"@), JsonData::Str(a.last())],
        ));
        assert(a.drop_last().push(a.last()) =~= a);
    } else {
        assert(items.len() == 0);
        assert(Seq::<Seq<char>>::empty() =~= a);
        assert(Seq::<Seq<char>>::empty() =~= g);
    }
}

/// Round trip of a permission record through its JSON form: parsing what
/// `create_json` builds yields exactly the record's four name lists.
pub proof fn lemma_perm_json_round_trip(p: Permission)
    ensures
        spec_parse_permission(spec_perm_json(p)) == Some(p.spec_lists()),
{
    reveal_strlit("read");
    reveal_strlit("write");
    assert("read"@.len() == 4);
    assert("write"@.len() == 5);
    let entries = spec_perm_json(p)->Obj_0;
    assert(obj_lookup(entries, "read"@) == Some(entries[0].1));
    assert(entries.drop_first()[0] == entries[1]);
    assert(obj_lookup(entries, "write"@) == obj_lookup(entries.drop_first(), "write"@));
    assert(obj_lookup(entries.drop_first(), "write"@) == Some(entries[1].1));
    lemma_perm_list_round_trip(strings_view(p.read_a_users@), strings_view(p.read_g_users@));
    lemma_perm_list_round_trip(strings_view(p.write_a_users@), strings_view(p.write_g_users@));
}

/// The shared evaluation behind `check_read` and `check_write`.
fn check_lists(
    a_list: &Vec<String>,
    g_list: &Vec<String>,
    is_authed: bool,
    user: &String,
    domain: &String,
) -> (r: Result<bool, String>)
    ensures
        match spec_check(a_list@, g_list@, is_authed, user@, domain@) {
            Some(b) => r == Ok::<bool, String>(b),
            None => r is Err,
        },
{
    if contains_string(a_list, "any") {
        return Ok(true);
    }
    if !is_authed {
        return Ok(false);
    }
    if str_eq(domain.as_str(), "a_auth") {
        Ok(contains_string(a_list, "authed") || contains_string(a_list, user.as_str()))
    } else if str_eq(domain.as_str(), "g_auth") {
        Ok(contains_string(g_list, "authed") || contains_string(g_list, user.as_str()))
    } else {
        Err("unknown permission domain".to_owned())
    }
}

/// A well-formed permission list element: `[domain, name]` with a known
/// domain and a string name.
pub open spec fn perm_elem_ok(d: JsonData) -> bool {
    &&& d matches JsonData::Arr(pair)
    &&& pair.len() == 2
    &&& pair[1] is Str
    &&& (pair[0] == JsonData::Str("a_user"@) || pair[0] == JsonData::Str("g_user"@))
}

/// A list that parses has only well-formed elements.
pub proof fn lemma_perm_list_elems(s: Seq<JsonData>)
    requires
        spec_parse_perm_list(s) is Some,
    ensures
        forall|i: int| 0 <= i < s.len() ==> #[trigger] perm_elem_ok(s[i]),
    decreases s.len(),
{
    if s.len() > 0 {
        lemma_perm_list_elems(s.drop_last());
        assert forall|i: int| 0 <= i < s.len() implies #[trigger] perm_elem_ok(s[i]) by {
            if i < s.len() - 1 {
                assert(perm_elem_ok(s.drop_last()[i]));
            } else {
                assert(s[i] == s.last());
            }
        }
    }
}

/// Parse one permission list of `[domain, name]` pairs.
#[verifier::loop_isolation(false)]
fn parse_perm_list(items: &Vec<JsonValue>) -> (r: Result<(Vec<String>, Vec<String>), String>)
    ensures
        match spec_parse_perm_list(crate::json::seq_view(items@)) {
            Some(lists) => r matches Ok(p) && strings_view(p.0@) == lists.0 && strings_view(p.1@)
                == lists.1,
            None => r is Err,
        },
{
    let ghost iv = crate::json::seq_view(items@);
    proof {
        crate::json::lemma_seq_view_len(items@);
    }
    let mut a_users: Vec<String> = Vec::new();
    let mut g_users: Vec<String> = Vec::new();
    let mut i: usize = 0;
    while i < items.len()
        invariant
            i <= items.len(),
            spec_parse_perm_list(iv.subrange(0, i as int)) matches Some(lists) && strings_view(
                a_users@,
            ) == lists.0 && strings_view(g_users@) == lists.1,
        decreases items.len() - i,
    {
        proof {
            crate::json::lemma_seq_view_index(items@, i as int);
            assert(iv.subrange(0, i + 1).drop_last() =~= iv.subrange(0, i as int));
        }
        let ghost prefix = spec_parse_perm_list(iv.subrange(0, i as int));
        let well_formed = check_perm_elem(&items[i]);
        if !well_formed {
            proof {
                if spec_parse_perm_list(iv) is Some {
                    lemma_perm_list_elems(iv);
                }
            }
            return Err("malformed permission entry".to_owned());
        }
        let pair = match &items[i] {
            JsonValue::Array(pair) => pair,
            _ => {
                return Err("permission entry is not an array".to_owned());
            },
        };
        proof {
            crate::json::lemma_seq_view_len(pair@);
            crate::json::lemma_seq_view_index(pair@, 0);
            crate::json::lemma_seq_view_index(pair@, 1);
        }
        let nm = match &pair[1] {
            JsonValue::Str(nm) => nm.clone(),
            _ => {
                return Err("permission entity is not a string".to_owned());
            },
        };
        let is_a = match &pair[0] {
            JsonValue::Str(d) => str_eq(d.as_str(), "a_user"),
            _ => false,
        };
        let ghost a_prev = a_users@;
        let ghost g_prev = g_users@;
        if is_a {
            a_users.push(nm);
            proof {
                assert(strings_view(a_users@) =~= strings_view(a_prev).push(a_users@.last()@));
            }
        } else {
            g_users.push(nm);
            proof {
                assert(strings_view(g_users@) =~= strings_view(g_prev).push(g_users@.last()@));
            }
        }
        i += 1;
    }
    proof {
        assert(iv.subrange(0, items@.len() as int) =~= iv);
    }
    Ok((a_users, g_users))
}

/// Decide whether one permission list element is well-formed.
fn check_perm_elem(v: &JsonValue) -> (r: bool)
    ensures
        r == perm_elem_ok(v@),
{
    proof {
        match v {
            JsonValue::Array(pair) => {
                crate::json::lemma_seq_view_len(pair@);
                if pair@.len() == 2 {
                    crate::json::lemma_seq_view_index(pair@, 0);
                    crate::json::lemma_seq_view_index(pair@, 1);
                }
            },
            _ => {},
        }
    }
    match v {
        JsonValue::Array(pair) => {
            if pair.len() != 2 {
                return false;
            }
            let name_ok = match &pair[1] {
                JsonValue::Str(_) => true,
                _ => false,
            };
            let domain_ok = match &pair[0] {
                JsonValue::Str(d) => str_eq(d.as_str(), "a_user") || str_eq(d.as_str(), "g_user"),
                _ => false,
            };
            name_ok && domain_ok
        },
        _ => false,
    }
}

} // verus!
