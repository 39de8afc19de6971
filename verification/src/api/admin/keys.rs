//! The page of API keys: keys grouped by caller and project, and what creating
//! and rotating one shows.

use crate::api::admin::audit::{entry, entry_of, name_of, named};
use crate::api::admin::dashboard::{
    enabled_json, enabled_text, keep_unless_blank, or_dash, status_tag, status_tag_of, text_or_dash,
    unless_blank, DashboardError, SuperDashboardSession,
};
use crate::codec::{hash_token, key_shaped, new_api_key, token_hash};
use crate::json::{json_int, json_text_or_null, text_of_json, text_or_null, Json, JsonModel};
use crate::ordered::with_entry;
use crate::records::{ApiKey, NewApiKey, NewAuditLogEntry, NewUser, User};
use crate::sums::{lemma_added_in_turn, lemma_nothing_added, lemma_picked_selects, picked, selects};
use crate::text::{
    contains_text, copy_text, escaped, has_prefix, he, holds_text, i64_text, in_order, int_text,
    nat_text, opt_text, same, sort_texts, texts, trim, trimmed, u64_text,
};
use vstd::prelude::*;

verus! {

/// A key as the page shows it.
#[derive(Debug, Clone, PartialEq, Eq)]
pub struct KeyView {
    pub id: i64,
    pub user_id: i64,
    pub user_name: String,
    pub project: Option<String>,
    pub label: Option<String>,
    pub enabled: bool,
    pub created_at: String,
    pub disabled_at: Option<String>,
    /// The key itself, on the one occasion that it is shown.
    pub raw_key: Option<String>,
}

pub struct KeyModel {
    pub id: i64,
    pub user_id: i64,
    pub user_name: Seq<char>,
    pub project: Option<Seq<char>>,
    pub label: Option<Seq<char>>,
    pub enabled: bool,
    pub created_at: Seq<char>,
    pub disabled_at: Option<Seq<char>>,
    pub raw_key: Option<Seq<char>>,
}

impl View for KeyView {
    type V = KeyModel;

    open spec fn view(&self) -> KeyModel {
        KeyModel {
            id: self.id,
            user_id: self.user_id,
            user_name: self.user_name@,
            project: opt_text(self.project),
            label: opt_text(self.label),
            enabled: self.enabled,
            created_at: self.created_at@,
            disabled_at: opt_text(self.disabled_at),
            raw_key: opt_text(self.raw_key),
        }
    }
}

/// The view of a stored key. The key itself is not in it.
pub open spec fn view_of(k: ApiKey, user_name: Seq<char>) -> KeyModel {
    KeyModel {
        id: k.id,
        user_id: k.user_id,
        user_name,
        project: opt_text(k.project),
        label: opt_text(k.label),
        enabled: k.enabled,
        created_at: k.created_at@,
        disabled_at: opt_text(k.disabled_at),
        raw_key: None,
    }
}

pub fn to_key_view(k: &ApiKey, user_name: String) -> (r: KeyView)
    ensures
        r@ == view_of(*k, user_name@),
{
    KeyView {
        id: k.id,
        user_id: k.user_id,
        user_name,
        project: copy_text(&k.project),
        label: copy_text(&k.label),
        enabled: k.enabled,
        created_at: k.created_at.clone(),
        disabled_at: copy_text(&k.disabled_at),
        raw_key: None,
    }
}

// ---------------------------------------------------------------------------
// Rows
// ---------------------------------------------------------------------------

pub open spec fn disable_button(id: Seq<char>, group: Seq<char>) -> Seq<char> {
    "<button class=\"btn btn-danger\" hx-post=\"/admin/keys/"@ + id
        + "/disable\" hx-target=\"#key-group-"@ + group + "\" hx-swap=\"outerHTML\">Disable</button> "@
}

pub open spec fn rotate_button(id: Seq<char>, group: Seq<char>) -> Seq<char> {
    "<button class=\"btn btn-secondary\" hx-post=\"/admin/keys/"@ + id
        + "/rotate\" hx-target=\"#key-group-"@ + group + "\" hx-swap=\"outerHTML\">Rotate</button>"@
}

fn make_disable_button(id: &str, group: &str) -> (r: String)
    ensures
        r@ == disable_button(id@, group@),
{
    "<button class=\"btn btn-danger\" hx-post=\"/admin/keys/".to_owned().concat(id).concat(
        "/disable\" hx-target=\"#key-group-",
    ).concat(group).concat("\" hx-swap=\"outerHTML\">Disable</button> ")
}

fn make_rotate_button(id: &str, group: &str) -> (r: String)
    ensures
        r@ == rotate_button(id@, group@),
{
    "<button class=\"btn btn-secondary\" hx-post=\"/admin/keys/".to_owned().concat(id).concat(
        "/rotate\" hx-target=\"#key-group-",
    ).concat(group).concat("\" hx-swap=\"outerHTML\">Rotate</button>")
}

/// The key itself, with a button that copies it.
pub open spec fn raw_key_fragment(raw: Option<Seq<char>>) -> Seq<char> {
    match raw {
        Some(raw) => "<br><span style=\"display:inline-flex;align-items:center;gap:0.4rem;margin-top:0.4rem;\"><code style=\"color:green;font-family:monospace;font-size:0.85rem;background:#f0fff0;padding:0.2rem 0.4rem;border-radius:3px;border:1px solid #c3e6cb;\">"@
            + escaped(raw)
            + "</code><button type=\"button\" title=\"Copy to clipboard\" onclick=\"navigator.clipboard.writeText('"@
            + escaped(raw)
            + "').then(function(){var b=this;b.textContent='\u{2713}';setTimeout(function(){b.textContent='\u{29c9}'},1500)}.bind(this))\" style=\"background:none;border:1px solid #aaa;border-radius:3px;padding:0.1rem 0.35rem;cursor:pointer;font-size:0.85rem;color:#555;\">\u{29c9}</button></span>"@,
        None => ""@,
    }
}

fn make_raw_key_fragment(raw: &Option<String>) -> (r: String)
    ensures
        r@ == raw_key_fragment(opt_text(*raw)),
{
    match raw {
        Some(raw) => {
            let safe = he(raw.as_str());
            "<br><span style=\"display:inline-flex;align-items:center;gap:0.4rem;margin-top:0.4rem;\"><code style=\"color:green;font-family:monospace;font-size:0.85rem;background:#f0fff0;padding:0.2rem 0.4rem;border-radius:3px;border:1px solid #c3e6cb;\">".to_owned().concat(
                safe.as_str(),
            ).concat(
                "</code><button type=\"button\" title=\"Copy to clipboard\" onclick=\"navigator.clipboard.writeText('",
            ).concat(safe.as_str()).concat(
                "').then(function(){var b=this;b.textContent='\u{2713}';setTimeout(function(){b.textContent='\u{29c9}'},1500)}.bind(this))\" style=\"background:none;border:1px solid #aaa;border-radius:3px;padding:0.1rem 0.35rem;cursor:pointer;font-size:0.85rem;color:#555;\">\u{29c9}</button></span>",
            )
        },
        None => "".to_owned(),
    }
}

/// The row that stands for a group.
pub open spec fn header_row(k: KeyModel, group: Seq<char>, is_active: bool, toggle: Seq<char>) -> Seq<
    char,
> {
    let id = int_text(k.id as int);
    let disable = if is_active {
        disable_button(id, group)
    } else {
        ""@
    };
    "<tr id=\"key-row-"@ + id + "\"><td>"@ + escaped(k.user_name) + "</td><td>"@ + escaped(
        or_dash(k.project),
    ) + "</td><td>"@ + escaped(or_dash(k.label)) + "</td><td>"@ + status_tag_of(k.enabled)
        + "</td><td>"@ + k.created_at + "</td><td>"@ + or_dash(k.disabled_at) + "</td><td>"@ + disable
        + rotate_button(id, group) + toggle + raw_key_fragment(k.raw_key) + "</td></tr>"@
}

pub fn key_header_row_html(view: &KeyView, group_id: &str, is_active: bool, toggle_html: &str) -> (r:
    String)
    ensures
        r@ == header_row(view@, group_id@, is_active, toggle_html@),
{
    let id = i64_text(view.id);
    let disable = if is_active {
        make_disable_button(id.as_str(), group_id)
    } else {
        "".to_owned()
    };
    let rotate = make_rotate_button(id.as_str(), group_id);
    let raw = make_raw_key_fragment(&view.raw_key);
    let user = he(view.user_name.as_str());
    let project = he(text_or_dash(&view.project));
    let label = he(text_or_dash(&view.label));
    "<tr id=\"key-row-".to_owned().concat(id.as_str()).concat("\"><td>").concat(
        user.as_str(),
    ).concat("</td><td>").concat(project.as_str()).concat("</td><td>").concat(
        label.as_str(),
    ).concat("</td><td>").concat(status_tag(view.enabled)).concat("</td><td>").concat(
        view.created_at.as_str(),
    ).concat("</td><td>").concat(text_or_dash(&view.disabled_at)).concat("</td><td>").concat(
        disable.as_str(),
    ).concat(rotate.as_str()).concat(toggle_html).concat(raw.as_str()).concat("</td></tr>")
}

/// The row of a key that has been replaced.
pub open spec fn sub_row(k: KeyModel, group: Seq<char>, display: Seq<char>) -> Seq<char> {
    let id = int_text(k.id as int);
    "<tr id=\"key-row-"@ + id + "\" class=\"key-sub-row sub-"@ + group + "\" style=\"display:"@
        + display + ";background:#fff0f0;\"><td style=\"padding-left:2rem;\">\u{21b3} "@ + escaped(
        k.user_name,
    ) + "</td><td>"@ + escaped(or_dash(k.project)) + "</td><td>"@ + escaped(or_dash(k.label))
        + "</td><td><span class=\"tag tag-disabled\">Disabled</span></td><td>"@ + k.created_at
        + "</td><td>"@ + or_dash(k.disabled_at) + "</td><td>"@ + rotate_button(id, group)
        + "</td></tr>"@
}

pub fn key_sub_row_html(view: &KeyView, group_id: &str, display: &str) -> (r: String)
    ensures
        r@ == sub_row(view@, group_id@, display@),
{
    let id = i64_text(view.id);
    let rotate = make_rotate_button(id.as_str(), group_id);
    let user = he(view.user_name.as_str());
    let project = he(text_or_dash(&view.project));
    let label = he(text_or_dash(&view.label));
    "<tr id=\"key-row-".to_owned().concat(id.as_str()).concat(
        "\" class=\"key-sub-row sub-",
    ).concat(group_id).concat("\" style=\"display:").concat(display).concat(
        ";background:#fff0f0;\"><td style=\"padding-left:2rem;\">\u{21b3} ",
    ).concat(user.as_str()).concat("</td><td>").concat(project.as_str()).concat(
        "</td><td>",
    ).concat(label.as_str()).concat(
        "</td><td><span class=\"tag tag-disabled\">Disabled</span></td><td>",
    ).concat(view.created_at.as_str()).concat("</td><td>").concat(
        text_or_dash(&view.disabled_at),
    ).concat("</td><td>").concat(rotate.as_str()).concat("</td></tr>")
}

pub open spec fn sub_rows(keys: Seq<KeyModel>, group: Seq<char>, display: Seq<char>) -> Seq<char>
    decreases keys.len(),
{
    if keys.len() == 0 {
        ""@
    } else {
        sub_rows(keys.drop_last(), group, display) + sub_row(keys.last(), group, display)
    }
}

// ---------------------------------------------------------------------------
// Groups
// ---------------------------------------------------------------------------

/// The button that folds the replaced keys of a group in and out.
pub open spec fn toggle_fragment(group: Seq<char>, count: nat, expanded: bool) -> Seq<char> {
    if count == 0 {
        ""@
    } else {
        " <button id=\"toggle-"@ + group + "\" type=\"button\" onclick=\"toggleGroup('"@ + group
            + "')\" class=\"btn btn-secondary\" data-count=\""@ + nat_text(count) + "\">"@ + (
        if expanded {
            "\u{25bc}"@
        } else {
            "\u{25b6}"@
        }) + " "@ + (if count == 1 {
            "1 old key"@
        } else {
            nat_text(count) + " old keys"@
        }) + "</button>"@
    }
}

fn make_toggle(group: &str, count: usize, expanded: bool) -> (r: String)
    ensures
        r@ == toggle_fragment(group@, count as nat, expanded),
{
    if count == 0 {
        return "".to_owned();
    }
    let n = u64_text(count as u64);
    let arrow = if expanded {
        "\u{25bc}"
    } else {
        "\u{25b6}"
    };
    let label = if count == 1 {
        "1 old key".to_owned()
    } else {
        n.clone().concat(" old keys")
    };
    " <button id=\"toggle-".to_owned().concat(group).concat(
        "\" type=\"button\" onclick=\"toggleGroup('",
    ).concat(group).concat("')\" class=\"btn btn-secondary\" data-count=\"").concat(
        n.as_str(),
    ).concat("\">").concat(arrow).concat(" ").concat(label.as_str()).concat("</button>")
}

pub open spec fn key_models(keys: Seq<KeyView>) -> Seq<KeyModel> {
    Seq::new(keys.len(), |i: int| keys[i]@)
}

pub open spec fn opt_key(k: Option<KeyView>) -> Option<KeyModel> {
    match k {
        Some(k) => Some(k@),
        None => None,
    }
}

/// The keys of a group that are folded away: all disabled ones under an active
/// header; all but the first where that one is the header.
pub open spec fn folded(active: Option<KeyModel>, disabled: Seq<KeyModel>) -> Seq<KeyModel> {
    if active is Some {
        disabled
    } else {
        disabled.skip(1)
    }
}

/// A group of keys, at most one of them active, as a table body.
pub open spec fn group_fragment(
    group_id: i64,
    active: Option<KeyModel>,
    disabled: Seq<KeyModel>,
    expanded: bool,
) -> Seq<char> {
    let group = int_text(group_id as int);
    let rest = folded(active, disabled);
    let toggle = toggle_fragment(group, rest.len(), expanded);
    let header = match active {
        Some(k) => header_row(k, group, true, toggle),
        None => header_row(disabled[0], group, false, toggle),
    };
    let display = if expanded {
        "table-row"@
    } else {
        "none"@
    };
    "<tbody id=\"key-group-"@ + group + "\">"@ + header + sub_rows(rest, group, display)
        + "</tbody>"@
}

/// The table body of a group of keys. A group has at least one.
pub fn key_group_html(
    group_id: i64,
    active: &Option<KeyView>,
    disabled_keys: &Vec<KeyView>,
    expanded: bool,
) -> (r: String)
    requires
        *active is Some || disabled_keys@.len() > 0,
    ensures
        r@ == group_fragment(
            group_id,
            opt_key(*active),
            key_models(disabled_keys@),
            expanded,
        ),
{
    let ghost rest = folded(opt_key(*active), key_models(disabled_keys@));
    let group = i64_text(group_id);
    let first: usize = if active.is_some() {
        0
    } else {
        1
    };
    let toggle = make_toggle(group.as_str(), disabled_keys.len() - first, expanded);
    let header = match active {
        Some(k) => key_header_row_html(k, group.as_str(), true, toggle.as_str()),
        None => key_header_row_html(&disabled_keys[0], group.as_str(), false, toggle.as_str()),
    };
    let display = if expanded {
        "table-row"
    } else {
        "none"
    };
    let mut rows: String = "".to_owned();
    let mut i: usize = first;
    assert(rest.take(0) =~= Seq::empty());
    while i < disabled_keys.len()
        invariant
            first <= i <= disabled_keys@.len(),
            rest == key_models(disabled_keys@).skip(first as int),
            rows@ == sub_rows(rest.take(i - first), group@, display@),
        decreases disabled_keys@.len() - i,
    {
        let ghost before = rows@;
        let row = key_sub_row_html(&disabled_keys[i], group.as_str(), display);
        rows.append(row.as_str());
        proof {
            let t = rest.take(i + 1 - first);
            assert(t.drop_last() =~= rest.take(i - first));
            assert(t.last() == disabled_keys@[i as int]@);
        }
        i += 1;
    }
    assert(rest.take(rest.len() as int) =~= rest);
    "<tbody id=\"key-group-".to_owned().concat(group.as_str()).concat("\">").concat(
        header.as_str(),
    ).concat(rows.as_str()).concat("</tbody>")
}

// ---------------------------------------------------------------------------
// Callers by id
// ---------------------------------------------------------------------------

/// The name of a caller, where it is known.
pub open spec fn known_name(users: Seq<User>, id: i64) -> Option<Seq<char>>
    decreases users.len(),
{
    if users.len() == 0 {
        None
    } else if users.last().id == id {
        Some(users.last().name@)
    } else {
        known_name(users.drop_last(), id)
    }
}

pub fn find_name(users: &Vec<User>, id: i64) -> (r: Option<String>)
    ensures
        opt_text(r) == known_name(users@, id),
{
    let mut i: usize = users.len();
    assert(users@.take(users@.len() as int) =~= users@);
    while i > 0
        invariant
            i <= users@.len(),
            known_name(users@.take(i as int), id) == known_name(users@, id),
        decreases i,
    {
        assert(users@.take(i as int).drop_last() =~= users@.take(i - 1));
        if users[i - 1].id == id {
            return Some(users[i - 1].name.clone());
        }
        i -= 1;
    }
    None
}

/// The name of a caller, or its number after `prefix` where it is not known.
pub open spec fn name_or_number(users: Seq<User>, id: i64, prefix: Seq<char>) -> Seq<char> {
    match known_name(users, id) {
        Some(name) => name,
        None => prefix + int_text(id as int),
    }
}

pub fn show_name(users: &Vec<User>, id: i64, prefix: &str) -> (r: String)
    ensures
        r@ == name_or_number(users@, id, prefix@),
{
    match find_name(users, id) {
        Some(name) => name,
        None => prefix.to_owned().concat(i64_text(id).as_str()),
    }
}

/// The name of a caller as the page of keys shows it.
pub open spec fn name_in(users: Seq<User>, id: i64) -> Seq<char> {
    name_or_number(users, id, "user:"@)
}

// ---------------------------------------------------------------------------
// Grouping
// ---------------------------------------------------------------------------

/// What the keys of a group have in common: the caller and the project.
pub type GroupRank = (i64, Option<Seq<char>>);

pub open spec fn group_of(k: ApiKey) -> GroupRank {
    (k.user_id, opt_text(k.project))
}

/// The groups of some keys, in the order in which each first occurs.
pub open spec fn groups_of(keys: Seq<ApiKey>) -> Seq<GroupRank>
    decreases keys.len(),
{
    if keys.len() == 0 {
        Seq::empty()
    } else {
        let rest = groups_of(keys.drop_last());
        if rest.contains(group_of(keys.last())) {
            rest
        } else {
            rest.push(group_of(keys.last()))
        }
    }
}

/// The keys of a group, in order.
pub open spec fn members(keys: Seq<ApiKey>, group: GroupRank) -> Seq<ApiKey>
    decreases keys.len(),
{
    if keys.len() == 0 {
        Seq::empty()
    } else {
        let rest = members(keys.drop_last(), group);
        if group_of(keys.last()) == group {
            rest.push(keys.last())
        } else {
            rest
        }
    }
}

/// The first key of a group that is enabled.
pub open spec fn active_key(keys: Seq<ApiKey>) -> Option<ApiKey>
    decreases keys.len(),
{
    if keys.len() == 0 {
        None
    } else if keys[0].enabled {
        Some(keys[0])
    } else {
        active_key(keys.drop_first())
    }
}

/// Some keys that are borrowed from a list.
pub open spec fn borrowed(keys: Seq<&ApiKey>) -> Seq<ApiKey> {
    Seq::new(keys.len(), |i: int| *keys[i])
}

/// The keys of a group that are disabled, in order.
pub open spec fn disabled_views(keys: Seq<ApiKey>, users: Seq<User>) -> Seq<KeyModel>
    decreases keys.len(),
{
    if keys.len() == 0 {
        Seq::empty()
    } else {
        let rest = disabled_views(keys.drop_last(), users);
        let k = keys.last();
        if k.enabled {
            rest
        } else {
            rest.push(view_of(k, name_in(users, k.user_id)))
        }
    }
}

/// The active key of a group, with the key itself where it is to be shown.
pub open spec fn active_view(keys: Seq<ApiKey>, users: Seq<User>, raw: Option<Seq<char>>) -> Option<
    KeyModel,
> {
    match active_key(keys) {
        Some(k) => Some(KeyModel { raw_key: raw, ..view_of(k, name_in(users, k.user_id)) }),
        None => None,
    }
}

/// A group is known by its active key, or else by the first disabled one.
pub open spec fn group_id_of(keys: Seq<ApiKey>, users: Seq<User>) -> i64 {
    match active_key(keys) {
        Some(k) => k.id,
        None => disabled_views(keys, users)[0].id,
    }
}

/// The table body of the keys of one group; nothing where it has none.
pub open spec fn group_body(
    keys: Seq<ApiKey>,
    users: Seq<User>,
    raw: Option<Seq<char>>,
    expanded: bool,
) -> Seq<char> {
    if keys.len() == 0 {
        ""@
    } else {
        group_fragment(
            group_id_of(keys, users),
            active_view(keys, users, raw),
            disabled_views(keys, users),
            expanded,
        )
    }
}

proof fn lemma_active_or_disabled(keys: Seq<ApiKey>, users: Seq<User>)
    ensures
        keys.len() > 0 ==> active_key(keys) is Some || disabled_views(keys, users).len() > 0,
        active_key(keys) is None ==> forall|i: int| 0 <= i < keys.len() ==> !(#[trigger] keys[i]).enabled,
    decreases keys.len(),
{
    if keys.len() > 0 {
        lemma_active_or_disabled(keys.drop_first(), users);
        if active_key(keys) is None {
            assert forall|i: int| 0 <= i < keys.len() implies !(#[trigger] keys[i]).enabled by {
                if i > 0 {
                    assert(keys[i] == keys.drop_first()[i - 1]);
                }
            }
            assert(!keys.last().enabled);
        }
    }
}

fn find_active(keys: &Vec<&ApiKey>) -> (r: Option<usize>)
    ensures
        match r {
            Some(i) => i < keys@.len() && active_key(borrowed(keys@)) == Some(*keys@[i as int]),
            None => active_key(borrowed(keys@)) is None,
        },
{
    let mut i: usize = 0;
    let ghost all = borrowed(keys@);
    assert(all.skip(0) =~= all);
    while i < keys.len()
        invariant
            i <= keys@.len(),
            all == borrowed(keys@),
            active_key(all.skip(i as int)) == active_key(all),
        decreases keys@.len() - i,
    {
        if keys[i].enabled {
            return Some(i);
        }
        assert(all.skip(i as int).drop_first() =~= all.skip(i + 1));
        i += 1;
    }
    None
}

fn view_disabled(keys: &Vec<&ApiKey>, users: &Vec<User>) -> (r: Vec<KeyView>)
    ensures
        key_models(r@) == disabled_views(borrowed(keys@), users@),
{
    let mut out: Vec<KeyView> = Vec::new();
    let mut i: usize = 0;
    let ghost all = borrowed(keys@);
    while i < keys.len()
        invariant
            i <= keys@.len(),
            all == borrowed(keys@),
            key_models(out@) =~= disabled_views(all.take(i as int), users@),
        decreases keys@.len() - i,
    {
        assert(all.take(i + 1).drop_last() =~= all.take(i as int));
        if !keys[i].enabled {
            let ghost before = out@;
            let name = show_name(users, keys[i].user_id, "user:");
            let v = to_key_view(keys[i], name);
            out.push(v);
            assert(key_models(out@) =~= key_models(before).push(v@));
        }
        i += 1;
    }
    assert(all.take(keys@.len() as int) =~= all);
    out
}

/// Renders the keys of one group. `raw` is shown with the active key.
pub fn render_group(
    keys: &Vec<&ApiKey>,
    users: &Vec<User>,
    raw: Option<String>,
    expanded: bool,
) -> (r: String)
    ensures
        r@ == group_body(borrowed(keys@), users@, opt_text(raw), expanded),
{
    if keys.len() == 0 {
        return "".to_owned();
    }
    proof {
        lemma_active_or_disabled(borrowed(keys@), users@);
    }
    let disabled = view_disabled(keys, users);
    match find_active(keys) {
        Some(i) => {
            let name = show_name(users, keys[i].user_id, "user:");
            let view = KeyView { raw_key: raw, ..to_key_view(keys[i], name) };
            key_group_html(keys[i].id, &Some(view), &disabled, expanded)
        },
        None => {
            assert(key_models(disabled@).len() == disabled@.len());
            assert(key_models(disabled@)[0] == disabled@[0]@);
            key_group_html(disabled[0].id, &None, &disabled, expanded)
        },
    }
}

// ---------------------------------------------------------------------------
// The page
// ---------------------------------------------------------------------------

/// What the page of keys shows.
pub struct KeysPage {
    /// The groups, as table bodies one after the other.
    pub groups_html: String,
    /// The names of the callers, in order.
    pub user_names: Vec<String>,
    /// The projects, each once, in the order in which they first occur.
    pub projects: Vec<String>,
}

/// The table bodies of some groups.
pub open spec fn bodies(groups: Seq<GroupRank>, keys: Seq<ApiKey>, users: Seq<User>) -> Seq<char>
    decreases groups.len(),
{
    if groups.len() == 0 {
        ""@
    } else {
        bodies(groups.drop_last(), keys, users) + group_body(
            members(keys, groups.last()),
            users,
            None,
            false,
        )
    }
}

/// The projects of some keys, each once, in the order in which they first occur.
pub open spec fn projects_of(keys: Seq<ApiKey>) -> Seq<Seq<char>>
    decreases keys.len(),
{
    if keys.len() == 0 {
        Seq::empty()
    } else {
        let rest = projects_of(keys.drop_last());
        match keys.last().project {
            Some(p) => if rest.contains(p@) {
                rest
            } else {
                rest.push(p@)
            },
            None => rest,
        }
    }
}

fn same_project(a: &Option<String>, b: &Option<String>) -> (r: bool)
    ensures
        r == (opt_text(*a) == opt_text(*b)),
{
    match (a, b) {
        (Some(x), Some(y)) => same(x.as_str(), y.as_str()),
        (None, None) => true,
        _ => false,
    }
}


fn in_group(k: &ApiKey, other: &ApiKey) -> (r: bool)
    ensures
        r == (group_of(*k) == group_of(*other)),
{
    k.user_id == other.user_id && same_project(&k.project, &other.project)
}

/// Whether the group of a key is among those seen, each given by its first key.
fn is_known(keys: &Vec<ApiKey>, firsts: &Vec<usize>, i: usize, seen: Ghost<Seq<GroupRank>>) -> (r: bool)
    requires
        i < keys@.len(),
        firsts@.len() == seen@.len(),
        forall|k: int|
            0 <= k < firsts@.len() ==> (#[trigger] firsts@[k]) < i && group_of(
                keys@[firsts@[k] as int],
            ) == seen@[k],
    ensures
        r == seen@.contains(group_of(keys@[i as int])),
{
    let ghost group = group_of(keys@[i as int]);
    let mut j: usize = 0;
    while j < firsts.len()
        invariant
            j <= firsts@.len(),
            i < keys@.len(),
            firsts@.len() == seen@.len(),
            group == group_of(keys@[i as int]),
            forall|k: int|
                0 <= k < firsts@.len() ==> (#[trigger] firsts@[k]) < i && group_of(
                    keys@[firsts@[k] as int],
                ) == seen@[k],
            forall|k: int| 0 <= k < j ==> (#[trigger] seen@[k]) != group,
        decreases firsts@.len() - j,
    {
        let first: usize = firsts[j];
        if in_group(&keys[first], &keys[i]) {
            assert(seen@[j as int] == group);
            return true;
        }
        j += 1;
    }
    false
}

/// The first key of each group, by its place.
fn first_of_groups(keys: &Vec<ApiKey>) -> (r: Vec<usize>)
    ensures
        r@.len() == groups_of(keys@).len(),
        forall|j: int|
            0 <= j < r@.len() ==> (#[trigger] r@[j]) < keys@.len() && group_of(keys@[r@[j] as int])
                == groups_of(keys@)[j],
{
    let mut firsts: Vec<usize> = Vec::new();
    let mut i: usize = 0;
    assert(keys@.take(0) =~= Seq::empty());
    while i < keys.len()
        invariant
            i <= keys@.len(),
            firsts@.len() == groups_of(keys@.take(i as int)).len(),
            forall|j: int|
                0 <= j < firsts@.len() ==> (#[trigger] firsts@[j]) < i && group_of(
                    keys@[firsts@[j] as int],
                ) == groups_of(keys@.take(i as int))[j],
        decreases keys@.len() - i,
    {
        let ghost seen = groups_of(keys@.take(i as int));
        assert(keys@.take(i + 1).drop_last() =~= keys@.take(i as int));
        let known = is_known(keys, &firsts, i, Ghost(seen));
        if !known {
            firsts.push(i);
        }
        i += 1;
    }
    assert(keys@.take(keys@.len() as int) =~= keys@);
    firsts
}

fn members_of<'a>(keys: &'a Vec<ApiKey>, first: &ApiKey) -> (r: Vec<&'a ApiKey>)
    ensures
        borrowed(r@) == members(keys@, group_of(*first)),
{
    let mut out: Vec<&'a ApiKey> = Vec::new();
    let mut i: usize = 0;
    while i < keys.len()
        invariant
            i <= keys@.len(),
            borrowed(out@) =~= members(keys@.take(i as int), group_of(*first)),
        decreases keys@.len() - i,
    {
        assert(keys@.take(i + 1).drop_last() =~= keys@.take(i as int));
        if in_group(&keys[i], first) {
            let ghost before = out@;
            out.push(&keys[i]);
            assert(borrowed(out@) =~= borrowed(before).push(keys@[i as int]));
        }
        i += 1;
    }
    assert(keys@.take(keys@.len() as int) =~= keys@);
    out
}

fn list_projects(keys: &Vec<ApiKey>) -> (r: Vec<String>)
    ensures
        texts(r@) == projects_of(keys@),
{
    let mut out: Vec<String> = Vec::new();
    let mut i: usize = 0;
    while i < keys.len()
        invariant
            i <= keys@.len(),
            texts(out@) =~= projects_of(keys@.take(i as int)),
        decreases keys@.len() - i,
    {
        assert(keys@.take(i + 1).drop_last() =~= keys@.take(i as int));
        if let Some(p) = &keys[i].project {
            if !holds_text(&out, p.as_str()) {
                let ghost before = out@;
                out.push(p.clone());
                assert(texts(out@) =~= texts(before).push(p@));
            }
        }
        i += 1;
    }
    assert(keys@.take(keys@.len() as int) =~= keys@);
    out
}

pub open spec fn names_of(users: Seq<User>) -> Seq<Seq<char>> {
    Seq::new(users.len(), |i: int| users[i].name@)
}

fn list_names(users: &Vec<User>) -> (r: Vec<String>)
    ensures
        texts(r@) == names_of(users@),
{
    let mut out: Vec<String> = Vec::new();
    let mut i: usize = 0;
    while i < users.len()
        invariant
            i <= users@.len(),
            out@.len() == i,
            forall|k: int| 0 <= k < i ==> (#[trigger] out@[k])@ == users@[k].name@,
        decreases users@.len() - i,
    {
        out.push(users[i].name.clone());
        i += 1;
    }
    assert(texts(out@) =~= names_of(users@));
    out
}

/// Puts the page of keys together.
pub fn keys_page(keys: &Vec<ApiKey>, users: &Vec<User>) -> (r: KeysPage)
    ensures
        r.groups_html@ == bodies(groups_of(keys@), keys@, users@),
        in_order(texts(r.user_names@)),
        texts(r.user_names@).to_multiset() == names_of(users@).to_multiset(),
        texts(r.projects@) == projects_of(keys@),
{
    let firsts = first_of_groups(keys);
    let ghost groups = groups_of(keys@);
    let mut html: String = "".to_owned();
    let mut i: usize = 0;
    assert(groups.take(0) =~= Seq::empty());
    while i < firsts.len()
        invariant
            i <= firsts@.len(),
            firsts@.len() == groups.len(),
            forall|j: int|
                0 <= j < firsts@.len() ==> (#[trigger] firsts@[j]) < keys@.len() && group_of(
                    keys@[firsts@[j] as int],
                ) == groups[j],
            html@ == bodies(groups.take(i as int), keys@, users@),
        decreases firsts@.len() - i,
    {
        let first: usize = firsts[i];
        let group = members_of(keys, &keys[first]);
        let body = render_group(&group, users, None, false);
        html.append(body.as_str());
        assert(groups.take(i + 1).drop_last() =~= groups.take(i as int));
        assert(groups.take(i + 1).last() == groups[i as int]);
        i += 1;
    }
    assert(groups.take(groups.len() as int) =~= groups);
    KeysPage {
        groups_html: html,
        user_names: sort_texts(list_names(users)),
        projects: list_projects(keys),
    }
}

// ---------------------------------------------------------------------------
// Creating a key
// ---------------------------------------------------------------------------

#[derive(Debug, Clone, PartialEq, Eq)]
pub struct CreateKeyForm {
    pub user_name: String,
    pub project: String,
    pub label: String,
    pub email: Option<String>,
}

/// What is shown where the caller already has a key for the project.
pub open spec fn duplicate_fragment(
    user_name: Seq<char>,
    project: Option<Seq<char>>,
    enabled: bool,
    id: i64,
) -> Seq<char> {
    let group = int_text(id as int);
    let shown = match project {
        Some(p) => p,
        None => "(no project)"@,
    };
    "<div class=\"alert alert-warning\" style=\"display:flex;align-items:center;gap:1rem;\"><span>A key for <strong>"@
        + escaped(user_name) + "</strong> / project <strong>"@ + escaped(shown)
        + "</strong> already exists ("@ + status_tag_of(enabled)
        + "). Scroll down to see it, or rotate it to generate a new secret.</span><button class=\"btn btn-secondary\" hx-post=\"/admin/keys/"@
        + group + "/rotate\" hx-target=\"#key-group-"@ + group
        + "\" hx-swap=\"outerHTML\" onclick=\"document.getElementById('key-form-message').innerHTML=''\">Rotate existing key</button></div><script>(function(){var el=document.getElementById('key-group-"@
        + group
        + "');if(el){el.scrollIntoView({behavior:'smooth',block:'center'});el.classList.add('row-highlight');setTimeout(function(){el.classList.remove('row-highlight');},2500);}})();</script>"@
}

fn duplicate_html(user_name: &str, project: &Option<String>, enabled: bool, id: i64) -> (r: String)
    ensures
        r@ == duplicate_fragment(user_name@, opt_text(*project), enabled, id),
{
    let group = i64_text(id);
    let user = he(user_name);
    let shown = he(
        match project {
            Some(p) => p.as_str(),
            None => "(no project)",
        },
    );
    "<div class=\"alert alert-warning\" style=\"display:flex;align-items:center;gap:1rem;\"><span>A key for <strong>".to_owned().concat(
        user.as_str(),
    ).concat("</strong> / project <strong>").concat(shown.as_str()).concat(
        "</strong> already exists (",
    ).concat(status_tag(enabled)).concat(
        "). Scroll down to see it, or rotate it to generate a new secret.</span><button class=\"btn btn-secondary\" hx-post=\"/admin/keys/",
    ).concat(group.as_str()).concat("/rotate\" hx-target=\"#key-group-").concat(
        group.as_str(),
    ).concat(
        "\" hx-swap=\"outerHTML\" onclick=\"document.getElementById('key-form-message').innerHTML=''\">Rotate existing key</button></div><script>(function(){var el=document.getElementById('key-group-",
    ).concat(group.as_str()).concat(
        "');if(el){el.scrollIntoView({behavior:'smooth',block:'center'});el.classList.add('row-highlight');setTimeout(function(){el.classList.remove('row-highlight');},2500);}})();</script>",
    )
}

/// What is shown of a new key: the key itself, this once, and its group for the
/// table.
pub open spec fn created_fragment(
    user_name: Seq<char>,
    project: Option<Seq<char>>,
    raw: Seq<char>,
    body: Seq<char>,
) -> Seq<char> {
    "<div class=\"alert\" style=\"background:#d4edda;border:1px solid #c3e6cb;color:#155724;display:flex;align-items:center;gap:1rem;flex-wrap:wrap;\"><span>\u{2713} Key created for <strong>"@
        + escaped(user_name) + "</strong>"@ + (match project {
        Some(p) => " / "@ + p,
        None => ""@,
    })
        + ". Copy it now \u{2014} it won't be shown again:</span><code style=\"font-family:monospace;background:#f0fff0;padding:0.2rem 0.4rem;border-radius:3px;border:1px solid #c3e6cb;\">"@
        + escaped(raw)
        + "</code><button type=\"button\" onclick=\"navigator.clipboard.writeText('"@ + escaped(raw)
        + "').then(function(){var b=this;b.textContent='\u{2713} Copied';setTimeout(function(){b.textContent='\u{29c9} Copy'},1500)}.bind(this))\" class=\"btn btn-secondary\">\u{29c9} Copy</button></div><template id=\"__new_group__\">"@
        + body
        + "</template><script>(function(){var t=document.getElementById('__new_group__');var el=t.content.firstElementChild.cloneNode(true);var table=document.getElementById('keys-table');var first=table.querySelector('tbody');table.insertBefore(el,first||null);htmx.process(el);t.remove();})();</script>"@
}

fn created_html(user_name: &str, project: &Option<String>, raw: &str, body: &str) -> (r: String)
    ensures
        r@ == created_fragment(user_name@, opt_text(*project), raw@, body@),
{
    let user = he(user_name);
    let safe = he(raw);
    let shown = match project {
        Some(p) => " / ".to_owned().concat(p.as_str()),
        None => "".to_owned(),
    };
    "<div class=\"alert\" style=\"background:#d4edda;border:1px solid #c3e6cb;color:#155724;display:flex;align-items:center;gap:1rem;flex-wrap:wrap;\"><span>\u{2713} Key created for <strong>".to_owned().concat(
        user.as_str(),
    ).concat("</strong>").concat(shown.as_str()).concat(
        ". Copy it now \u{2014} it won't be shown again:</span><code style=\"font-family:monospace;background:#f0fff0;padding:0.2rem 0.4rem;border-radius:3px;border:1px solid #c3e6cb;\">",
    ).concat(safe.as_str()).concat(
        "</code><button type=\"button\" onclick=\"navigator.clipboard.writeText('",
    ).concat(safe.as_str()).concat(
        "').then(function(){var b=this;b.textContent='\u{2713} Copied';setTimeout(function(){b.textContent='\u{29c9} Copy'},1500)}.bind(this))\" class=\"btn btn-secondary\">\u{29c9} Copy</button></div><template id=\"__new_group__\">",
    ).concat(body).concat(
        "</template><script>(function(){var t=document.getElementById('__new_group__');var el=t.content.firstElementChild.cloneNode(true);var table=document.getElementById('keys-table');var first=table.querySelector('tbody');table.insertBefore(el,first||null);htmx.process(el);t.remove();})();</script>",
    )
}

/// Whose key it will be.
#[derive(Debug, Clone, PartialEq, Eq)]
pub struct Owner {
    pub id: i64,
    pub name: String,
}

/// Where the creation of a key stands.
#[derive(Debug, Clone, PartialEq, Eq)]
pub enum KeyPhase {
    FindingUser,
    CreatingUser,
    FindingUserAgain,
    FindingKey(Owner),
    /// With the key itself, which is stored nowhere else.
    CreatingKey(Owner, String),
    Ended,
}

/// The creation of a key: find or create the caller, refuse a second key for the
/// same project, create the key.
#[derive(Debug, Clone, PartialEq, Eq)]
pub struct KeyFlow {
    pub phase: KeyPhase,
    pub user_name: String,
    pub project: Option<String>,
    pub label: Option<String>,
}

/// What is to be done next.
#[derive(Debug, Clone, PartialEq, Eq)]
pub enum KeyStep {
    FindUser(String),
    CreateUser(NewUser),
    FindKey { user_id: i64, project: Option<String> },
    CreateKey(NewApiKey),
    /// Nothing was created; this is why.
    Show(String),
    /// Write the audit line and show the page.
    Created { audit: NewAuditLogEntry, html: String },
    Fail(DashboardError),
}

/// What is written to the audit log of a new key.
pub open spec fn new_key_json(user_id: i64, project: Option<Seq<char>>, label: Option<Seq<char>>) -> Seq<
    char,
> {
    let o = with_entry(Seq::empty(), "user_id"@, JsonModel::Int(user_id as int));
    let o = with_entry(o, "project"@, text_or_null(project));
    text_of_json(JsonModel::Obj(with_entry(o, "label"@, text_or_null(label))))
}

impl KeyFlow {
    /// Whether only the phase differs.
    pub open spec fn same_request(self, other: KeyFlow) -> bool {
        self.user_name == other.user_name && self.project == other.project && self.label
            == other.label
    }

    /// Begins with a form.
    pub fn start(form: &CreateKeyForm) -> (r: Result<(KeyFlow, KeyStep), DashboardError>)
        ensures
            trimmed(form.user_name@).len() == 0 ==> (r matches Err(DashboardError::BadRequest(m))
                && m@ == "user_name is required"@),
            trimmed(form.user_name@).len() > 0 ==> (r matches Ok((flow, step)) && {
                &&& flow.phase == KeyPhase::FindingUser
                &&& flow.user_name@ == trimmed(form.user_name@)
                &&& opt_text(flow.project) == unless_blank(form.project@)
                &&& opt_text(flow.label) == unless_blank(form.label@)
                &&& step matches KeyStep::FindUser(name) && name@ == flow.user_name@
            }),
    {
        let name = trim(form.user_name.as_str());
        if name.is_empty() {
            return Err(DashboardError::BadRequest("user_name is required".to_owned()));
        }
        let flow = KeyFlow {
            phase: KeyPhase::FindingUser,
            user_name: name.to_owned(),
            project: keep_unless_blank(form.project.as_str()),
            label: keep_unless_blank(form.label.as_str()),
        };
        Ok((flow, KeyStep::FindUser(name.to_owned())))
    }

    fn fail(&mut self) -> (r: KeyStep)
        ensures
            r == KeyStep::Fail(DashboardError::Internal),
            *final(self) == (KeyFlow { phase: KeyPhase::Ended, ..*old(self) }),
    {
        self.phase = KeyPhase::Ended;
        KeyStep::Fail(DashboardError::Internal)
    }

    /// Goes on to look for a key of the caller that was found.
    pub open spec fn seeks_key(self, next: KeyFlow, user: User, step: KeyStep) -> bool {
        &&& next.phase matches KeyPhase::FindingKey(owner) && owner.id == user.id && owner.name@
            == user.name@
        &&& step matches KeyStep::FindKey { user_id, project } && user_id == user.id && opt_text(
            project,
        ) == opt_text(self.project)
    }

    fn seek_key(&mut self, user: &User) -> (r: KeyStep)
        ensures
            final(self).same_request(*old(self)),
            old(self).seeks_key(*final(self), *user, r),
    {
        self.phase = KeyPhase::FindingKey(Owner { id: user.id, name: user.name.clone() });
        KeyStep::FindKey { user_id: user.id, project: copy_text(&self.project) }
    }

    /// The caller was looked up.
    pub fn on_user(&mut self, found: Result<Option<User>, ()>) -> (r: KeyStep)
        requires
            old(self).phase is FindingUser || old(self).phase is FindingUserAgain,
        ensures
            final(self).same_request(*old(self)),
            match found {
                Ok(Some(user)) => old(self).seeks_key(*final(self), user, r),
                Ok(None) => if old(self).phase is FindingUser {
                    &&& final(self).phase == KeyPhase::CreatingUser
                    &&& r matches KeyStep::CreateUser(u) && u.name@ == old(self).user_name@
                        && u.group_name is None && u.email is None
                } else {
                    r == KeyStep::Fail(DashboardError::Internal) && final(self).phase
                        == KeyPhase::Ended
                },
                Err(_) => r == KeyStep::Fail(DashboardError::Internal) && final(self).phase
                    == KeyPhase::Ended,
            },
    {
        let again = match self.phase {
            KeyPhase::FindingUserAgain => true,
            _ => false,
        };
        match found {
            Ok(Some(user)) => self.seek_key(&user),
            Ok(None) => {
                if again {
                    return self.fail();
                }
                self.phase = KeyPhase::CreatingUser;
                KeyStep::CreateUser(
                    NewUser { name: self.user_name.clone(), group_name: None, email: None },
                )
            },
            Err(_) => self.fail(),
        }
    }

    /// The caller was created, or another request was faster.
    pub fn on_user_created(&mut self, created: Result<User, ()>) -> (r: KeyStep)
        requires
            old(self).phase is CreatingUser,
        ensures
            final(self).same_request(*old(self)),
            match created {
                Ok(user) => old(self).seeks_key(*final(self), user, r),
                Err(_) => final(self).phase == KeyPhase::FindingUserAgain && (
                r matches KeyStep::FindUser(name) && name@ == old(self).user_name@),
            },
    {
        match created {
            Ok(user) => self.seek_key(&user),
            Err(_) => {
                self.phase = KeyPhase::FindingUserAgain;
                KeyStep::FindUser(self.user_name.clone())
            },
        }
    }

    /// A key of the caller for the project was looked up. There may be none.
    pub fn on_key(&mut self, found: Result<Option<ApiKey>, ()>) -> (r: KeyStep)
        requires
            old(self).phase is FindingKey,
        ensures
            final(self).same_request(*old(self)),
            match found {
                Ok(Some(existing)) => final(self).phase == KeyPhase::Ended && (
                r matches KeyStep::Show(html) && html@ == duplicate_fragment(
                    old(self).user_name@,
                    opt_text(old(self).project),
                    existing.enabled,
                    existing.id,
                )),
                Ok(None) => {
                    &&& old(self).phase matches KeyPhase::FindingKey(was)
                    &&& final(self).phase matches KeyPhase::CreatingKey(owner, raw)
                    &&& r matches KeyStep::CreateKey(k)
                    &&& owner == was
                    &&& key_shaped(raw@)
                    &&& k.user_id == owner.id
                    &&& k.key_hash@ == token_hash(raw@)
                    &&& opt_text(k.label) == opt_text(old(self).label)
                    &&& k.expires_at is None
                    &&& opt_text(k.project) == opt_text(old(self).project)
                },
                Err(_) => r == KeyStep::Fail(DashboardError::Internal) && final(self).phase
                    == KeyPhase::Ended,
            },
    {
        match found {
            Ok(Some(existing)) => {
                self.phase = KeyPhase::Ended;
                KeyStep::Show(
                    duplicate_html(
                        self.user_name.as_str(),
                        &self.project,
                        existing.enabled,
                        existing.id,
                    ),
                )
            },
            Ok(None) => {
                let mut phase = KeyPhase::Ended;
                std::mem::swap(&mut self.phase, &mut phase);
                match phase {
                    KeyPhase::FindingKey(owner) => {
                        let raw = new_api_key();
                        let key = NewApiKey {
                            user_id: owner.id,
                            key_hash: hash_token(raw.as_str()),
                            label: copy_text(&self.label),
                            expires_at: None,
                            project: copy_text(&self.project),
                        };
                        self.phase = KeyPhase::CreatingKey(owner, raw);
                        KeyStep::CreateKey(key)
                    },
                    _ => self.fail(),
                }
            },
            Err(_) => self.fail(),
        }
    }

    /// The key was stored.
    pub fn on_key_created(&mut self, session: &SuperDashboardSession, created: Result<ApiKey, ()>) -> (r:
        KeyStep)
        requires
            old(self).phase is CreatingKey,
        ensures
            *final(self) == (KeyFlow { phase: KeyPhase::Ended, ..*old(self) }),
            match created {
                Ok(key) => {
                    &&& old(self).phase matches KeyPhase::CreatingKey(owner, raw)
                    &&& r matches KeyStep::Created { audit, html }
                    &&& audit@ == entry_of(
                        session.0,
                        "key.create"@,
                        named("key"@, key.id),
                        Some(
                            new_key_json(
                                owner.id,
                                opt_text(old(self).project),
                                opt_text(old(self).label),
                            ),
                        ),
                    )
                    &&& html@ == created_fragment(
                        owner.name@,
                        opt_text(old(self).project),
                        raw@,
                        group_fragment(key.id, Some(view_of(key, owner.name@)), Seq::empty(), false),
                    )
                },
                Err(_) => r == KeyStep::Fail(DashboardError::Internal),
            },
    {
        let mut phase = KeyPhase::Ended;
        std::mem::swap(&mut self.phase, &mut phase);
        match (created, phase) {
            (Ok(key), KeyPhase::CreatingKey(owner, raw)) => {
                let after = Json::object().with("user_id", json_int(owner.id)).with(
                    "project",
                    json_text_or_null(&self.project),
                ).with("label", json_text_or_null(&self.label)).to_text();
                let audit = entry(&session.0, "key.create", name_of("key", key.id), Some(after));
                let view = to_key_view(&key, owner.name.clone());
                let none: Vec<KeyView> = Vec::new();
                assert(key_models(none@) =~= Seq::empty());
                let body = key_group_html(key.id, &Some(view), &none, false);
                let html = created_html(
                    owner.name.as_str(),
                    &self.project,
                    raw.as_str(),
                    body.as_str(),
                );
                KeyStep::Created { audit, html }
            },
            _ => KeyStep::Fail(DashboardError::Internal),
        }
    }
}

// ---------------------------------------------------------------------------
// Disabling and rotating a key
// ---------------------------------------------------------------------------

/// The first key of that id.
pub open spec fn key_with_id(keys: Seq<ApiKey>, id: i64) -> Option<ApiKey>
    decreases keys.len(),
{
    if keys.len() == 0 {
        None
    } else if keys[0].id == id {
        Some(keys[0])
    } else {
        key_with_id(keys.drop_first(), id)
    }
}

/// Finds the key that is to be disabled or rotated.
pub fn find_key<'a>(keys: &'a Vec<ApiKey>, id: i64) -> (r: Result<&'a ApiKey, DashboardError>)
    ensures
        match key_with_id(keys@, id) {
            Some(k) => r matches Ok(found) && *found == k,
            None => r matches Err(DashboardError::NotFound(m)) && m@ == "key "@ + int_text(id as int)
                + " not found"@,
        },
{
    let mut i: usize = 0;
    assert(keys@.skip(0) =~= keys@);
    while i < keys.len()
        invariant
            i <= keys@.len(),
            key_with_id(keys@.skip(i as int), id) == key_with_id(keys@, id),
        decreases keys@.len() - i,
    {
        if keys[i].id == id {
            return Ok(&keys[i]);
        }
        assert(keys@.skip(i as int).drop_first() =~= keys@.skip(i + 1));
        i += 1;
    }
    Err(DashboardError::NotFound("key ".to_owned().concat(i64_text(id).as_str()).concat(" not found")))
}

/// The audit line of a disabled key.
pub fn disabled_key(session: &SuperDashboardSession, id: i64) -> (r: NewAuditLogEntry)
    ensures
        r@ == entry_of(session.0, "key.disable"@, named("key"@, id), Some(enabled_json(false))),
{
    entry(&session.0, "key.disable", name_of("key", id), Some(enabled_text(false)))
}

/// The ids of the enabled keys among some, in order.
pub open spec fn enabled_ids(keys: Seq<ApiKey>) -> Seq<i64>
    decreases keys.len(),
{
    if keys.len() == 0 {
        Seq::empty()
    } else {
        let rest = enabled_ids(keys.drop_last());
        if keys.last().enabled {
            rest.push(keys.last().id)
        } else {
            rest
        }
    }
}

/// The keys that a rotation disables: all of the group that are enabled.
pub fn keys_to_disable(group: &Vec<ApiKey>) -> (r: Vec<i64>)
    ensures
        r@ == enabled_ids(group@),
{
    let mut out: Vec<i64> = Vec::new();
    let mut i: usize = 0;
    while i < group.len()
        invariant
            i <= group@.len(),
            out@ =~= enabled_ids(group@.take(i as int)),
        decreases group@.len() - i,
    {
        assert(group@.take(i + 1).drop_last() =~= group@.take(i as int));
        if group[i].enabled {
            out.push(group[i].id);
        }
        i += 1;
    }
    assert(group@.take(group@.len() as int) =~= group@);
    out
}

/// The key that replaces `old`, and the key itself: a fresh one for the same
/// caller and project, under the same label.
pub fn replacement(old_key: &ApiKey) -> (r: (NewApiKey, String))
    ensures
        key_shaped(r.1@),
        r.0.key_hash@ == token_hash(r.1@),
        r.0.user_id == old_key.user_id,
        opt_text(r.0.label) == opt_text(old_key.label),
        r.0.expires_at is None,
        opt_text(r.0.project) == opt_text(old_key.project),
{
    let raw = new_api_key();
    let key = NewApiKey {
        user_id: old_key.user_id,
        key_hash: hash_token(raw.as_str()),
        label: copy_text(&old_key.label),
        expires_at: None,
        project: copy_text(&old_key.project),
    };
    (key, raw)
}

pub open spec fn rotation_json(user_id: i64, replaced: i64) -> Seq<char> {
    let o = with_entry(Seq::empty(), "user_id"@, JsonModel::Int(user_id as int));
    text_of_json(
        JsonModel::Obj(with_entry(o, "replaced_key_id"@, JsonModel::Int(replaced as int))),
    )
}

/// The audit line of a rotated key.
pub fn rotated_key(
    session: &SuperDashboardSession,
    new_id: i64,
    user_id: i64,
    replaced: i64,
) -> (r: NewAuditLogEntry)
    ensures
        r@ == entry_of(
            session.0,
            "key.rotate"@,
            named("key"@, new_id),
            Some(rotation_json(user_id, replaced)),
        ),
{
    let after = Json::object().with("user_id", json_int(user_id)).with(
        "replaced_key_id",
        json_int(replaced),
    ).to_text();
    entry(&session.0, "key.rotate", name_of("key", new_id), Some(after))
}

// ---------------------------------------------------------------------------
// Laws
// ---------------------------------------------------------------------------

/// Every key stands in a group, each group stands once, and a group holds only
/// its own keys.
pub proof fn every_key_is_shown(keys: Seq<ApiKey>)
    ensures
        groups_of(keys).no_duplicates(),
        forall|i: int|
            0 <= i < keys.len() ==> groups_of(keys).contains(group_of(#[trigger] keys[i]))
                && members(keys, group_of(keys[i])).contains(keys[i]),
        forall|g: GroupRank, i: int|
            0 <= i < members(keys, g).len() ==> group_of(#[trigger] members(keys, g)[i]) == g
                && keys.contains(members(keys, g)[i]),
    decreases keys.len(),
{
    if keys.len() > 0 {
        let rest = keys.drop_last();
        every_key_is_shown(rest);
        let last = keys.last();
        assert(keys[keys.len() - 1] == last);
        let before = groups_of(rest);
        if !before.contains(group_of(last)) {
            assert(groups_of(keys)[before.len() as int] == group_of(last));
            assert forall|g: GroupRank| before.contains(g) implies groups_of(keys).contains(g) by {
                let i = choose|i: int| 0 <= i < before.len() && before[i] == g;
                assert(groups_of(keys)[i] == g);
            }
        }
        assert forall|i: int| 0 <= i < keys.len() implies groups_of(keys).contains(
            group_of(#[trigger] keys[i]),
        ) && members(keys, group_of(keys[i])).contains(keys[i]) by {
            let g = group_of(keys[i]);
            let m = members(rest, g);
            if i < rest.len() {
                assert(keys[i] == rest[i]);
                let j = choose|j: int| 0 <= j < m.len() && m[j] == keys[i];
                assert(members(keys, g)[j] == keys[i]);
            } else {
                assert(members(keys, g)[m.len() as int] == keys[i]);
            }
        }
        assert forall|g: GroupRank, i: int| 0 <= i < members(keys, g).len() implies group_of(
            #[trigger] members(keys, g)[i],
        ) == g && keys.contains(members(keys, g)[i]) by {
            let m = members(rest, g);
            if i < m.len() {
                assert(members(keys, g)[i] == m[i]);
                assert(rest.contains(m[i]));
                let j = choose|j: int| 0 <= j < rest.len() && rest[j] == m[i];
                assert(keys[j] == m[i]);
            }
        }
    }
}

/// A rotation disables every key of the group that was enabled.
pub proof fn rotation_disables_every_enabled_key(group: Seq<ApiKey>)
    ensures
        forall|i: int|
            0 <= i < group.len() && (#[trigger] group[i]).enabled ==> enabled_ids(group).contains(
                group[i].id,
            ),
    decreases group.len(),
{
    if group.len() > 0 {
        let rest = group.drop_last();
        rotation_disables_every_enabled_key(rest);
        assert forall|i: int| 0 <= i < group.len() && (#[trigger] group[i]).enabled implies enabled_ids(
            group,
        ).contains(group[i].id) by {
            let ids = enabled_ids(rest);
            if i < rest.len() {
                assert(group[i] == rest[i]);
                let j = choose|j: int| 0 <= j < ids.len() && ids[j] == group[i].id;
                assert(enabled_ids(group)[j] == group[i].id);
            } else {
                assert(enabled_ids(group)[ids.len() as int] == group[i].id);
            }
        }
    }
}

/// A key is shown as its row says, with the name of its owner and without its secret.
pub proof fn keys_are_shown_without_their_secret(k: ApiKey, name: Seq<char>)
    ensures
        view_of(k, name).id == k.id && view_of(k, name).user_id == k.user_id,
        view_of(k, name).user_name == name,
        view_of(k, name).project == opt_text(k.project) && view_of(k, name).label == opt_text(k.label),
        view_of(k, name).enabled == k.enabled,
        view_of(k, name).created_at == k.created_at@ && view_of(k, name).disabled_at == opt_text(
            k.disabled_at,
        ),
        view_of(k, name).raw_key is None,
{
}

/// The row of a key shows its owner, project, label and state, when it was made and when it
/// was disabled, in that order.
pub proof fn key_rows_show_their_key(k: KeyModel, group: Seq<char>, is_active: bool, toggle: Seq<char>, display: Seq<char>)
    ensures
        has_prefix(
            header_row(k, group, is_active, toggle),
            "<tr id=\"key-row-"@ + int_text(k.id as int) + "\"><td>"@ + escaped(k.user_name) + "</td><td>"@
                + escaped(or_dash(k.project)) + "</td><td>"@ + escaped(or_dash(k.label)) + "</td><td>"@
                + status_tag_of(k.enabled) + "</td><td>"@ + k.created_at + "</td><td>"@ + or_dash(
                k.disabled_at,
            ) + "</td><td>"@ + (if is_active {
                disable_button(int_text(k.id as int), group)
            } else {
                ""@
            }) + rotate_button(int_text(k.id as int), group),
        ),
        contains_text(
            sub_row(k, group, display),
            escaped(k.user_name) + "</td><td>"@ + escaped(or_dash(k.project)) + "</td><td>"@ + escaped(
                or_dash(k.label),
            ) + "</td><td><span class=\"tag tag-disabled\">Disabled</span></td><td>"@ + k.created_at
                + "</td><td>"@ + or_dash(k.disabled_at) + "</td><td>"@ + rotate_button(
                int_text(k.id as int),
                group,
            ),
        ),
{
    let id = int_text(k.id as int);
    let disable = if is_active {
        disable_button(id, group)
    } else {
        ""@
    };
    let head = "<tr id=\"key-row-"@ + id + "\"><td>"@ + escaped(k.user_name) + "</td><td>"@ + escaped(
        or_dash(k.project),
    ) + "</td><td>"@ + escaped(or_dash(k.label)) + "</td><td>"@ + status_tag_of(k.enabled) + "</td><td>"@
        + k.created_at + "</td><td>"@ + or_dash(k.disabled_at) + "</td><td>"@ + disable + rotate_button(
        id,
        group,
    );
    assert(header_row(k, group, is_active, toggle).take(head.len() as int) =~= head);
    let before = "<tr id=\"key-row-"@ + id + "\" class=\"key-sub-row sub-"@ + group
        + "\" style=\"display:"@ + display
        + ";background:#fff0f0;\"><td style=\"padding-left:2rem;\">\u{21b3} "@;
    let part = escaped(k.user_name) + "</td><td>"@ + escaped(or_dash(k.project)) + "</td><td>"@ + escaped(
        or_dash(k.label),
    ) + "</td><td><span class=\"tag tag-disabled\">Disabled</span></td><td>"@ + k.created_at
        + "</td><td>"@ + or_dash(k.disabled_at) + "</td><td>"@ + rotate_button(id, group);
    let at = before.len() as int;
    assert(sub_row(k, group, display).subrange(at, at + part.len()) =~= part);
}

/// Old keys are shown one row after the other, in their order.
pub proof fn old_keys_are_shown_in_order(s: Seq<KeyModel>, t: Seq<KeyModel>, x: KeyModel, group: Seq<char>, display: Seq<char>)
    ensures
        sub_rows(seq![x], group, display) == sub_row(x, group, display),
        sub_rows(s + t, group, display) == sub_rows(s, group, display) + sub_rows(t, group, display),
    decreases t.len(),
{
    reveal_strlit("");
    assert(""@.len() == 0);
    assert(seq![x].drop_last() =~= Seq::<KeyModel>::empty());
    assert(sub_rows(seq![x].drop_last(), group, display).len() == 0);
    assert(sub_rows(seq![x], group, display) =~= sub_row(x, group, display));
    if t.len() == 0 {
        assert(s + t =~= s);
        assert(sub_rows(s, group, display) + sub_rows(t, group, display) =~= sub_rows(s, group, display));
    } else {
        old_keys_are_shown_in_order(s, t.drop_last(), x, group, display);
        assert((s + t).drop_last() =~= s + t.drop_last());
        assert(sub_rows(s + t, group, display) =~= sub_rows(s, group, display) + sub_rows(t, group, display));
    }
}

/// Groups of keys are shown one after the other, in their order, each with its own keys.
pub proof fn groups_are_shown_in_order(s: Seq<GroupRank>, t: Seq<GroupRank>, x: GroupRank, keys: Seq<ApiKey>, users: Seq<User>)
    ensures
        bodies(seq![x], keys, users) == group_body(members(keys, x), users, None, false),
        bodies(s + t, keys, users) == bodies(s, keys, users) + bodies(t, keys, users),
    decreases t.len(),
{
    reveal_strlit("");
    assert(""@.len() == 0);
    let one = seq![x];
    assert(one.drop_last() =~= Seq::<GroupRank>::empty());
    lemma_nothing_added(bodies(one.drop_last(), keys, users), group_body(members(keys, x), users, None, false));
    if t.len() == 0 {
        assert(s + t =~= s);
        lemma_nothing_added(bodies(t, keys, users), bodies(s, keys, users));
    } else {
        let front = t.drop_last();
        groups_are_shown_in_order(s, front, x, keys, users);
        assert((s + t).drop_last() =~= s + front);
        assert((s + t).last() == t.last());
        lemma_added_in_turn(bodies(s, keys, users), bodies(front, keys, users), group_body(members(keys, t.last()), users, None, false));
    }
}

/// A user goes by the name of the last one listed under their number, and by the number
/// where there is none.
pub proof fn users_go_by_their_name(users: Seq<User>, id: i64, prefix: Seq<char>, i: int)
    ensures
        0 <= i < users.len() && users[i].id == id && (forall|j: int|
            i < j < users.len() ==> (#[trigger] users[j]).id != id) ==> known_name(users, id) == Some(
            users[i].name@,
        ) && name_or_number(users, id, prefix) == users[i].name@,
        (forall|j: int| 0 <= j < users.len() ==> (#[trigger] users[j]).id != id) ==> known_name(
            users,
            id,
        ) is None && name_or_number(users, id, prefix) == prefix + int_text(id as int),
    decreases users.len(),
{
    if users.len() > 0 {
        let front = users.drop_last();
        users_go_by_their_name(front, id, prefix, i);
        assert(forall|j: int| 0 <= j < front.len() ==> #[trigger] front[j] == users[j]);
        assert(users[users.len() - 1] == users.last());
    }
}

proof fn lemma_members_are_picked(keys: Seq<ApiKey>, group: GroupRank)
    ensures
        members(keys, group) == picked(
            keys,
            |k: ApiKey| k.user_id == group.0 && opt_text(k.project) == group.1,
            |k: ApiKey| k,
        ),
    decreases keys.len(),
{
    if keys.len() > 0 {
        lemma_members_are_picked(keys.drop_last(), group);
    }
}

/// A group holds the keys of one user for one project, all of them, in their order.
pub proof fn groups_hold_the_keys_of_one_project(keys: Seq<ApiKey>, group: GroupRank)
    ensures
        selects(
            members(keys, group),
            keys,
            |k: ApiKey| k.user_id == group.0 && opt_text(k.project) == group.1,
            |k: ApiKey| k,
        ),
{
    let keep = |k: ApiKey| k.user_id == group.0 && opt_text(k.project) == group.1;
    let same = |k: ApiKey| k;
    lemma_members_are_picked(keys, group);
    lemma_picked_selects(keys, keep, same, keep, same);
}

proof fn lemma_enabled_are_picked(keys: Seq<ApiKey>)
    ensures
        enabled_ids(keys) == picked(keys, |k: ApiKey| k.enabled, |k: ApiKey| k.id),
    decreases keys.len(),
{
    if keys.len() > 0 {
        lemma_enabled_are_picked(keys.drop_last());
    }
}

/// The keys to be disabled are the enabled ones, in their order.
pub proof fn enabled_keys_are_listed_in_order(keys: Seq<ApiKey>)
    ensures
        selects(enabled_ids(keys), keys, |k: ApiKey| k.enabled, |k: ApiKey| k.id),
{
    let keep = |k: ApiKey| k.enabled;
    let id = |k: ApiKey| k.id;
    lemma_enabled_are_picked(keys);
    lemma_picked_selects(keys, keep, id, keep, id);
}

proof fn lemma_disabled_are_picked(keys: Seq<ApiKey>, users: Seq<User>)
    ensures
        disabled_views(keys, users) == picked(
            keys,
            |k: ApiKey| !k.enabled,
            |k: ApiKey| view_of(k, name_in(users, k.user_id)),
        ),
    decreases keys.len(),
{
    if keys.len() > 0 {
        lemma_disabled_are_picked(keys.drop_last(), users);
    }
}

/// The old keys of a group are the disabled ones, in their order, under their owner's name.
pub proof fn disabled_keys_are_listed_in_order(keys: Seq<ApiKey>, users: Seq<User>)
    ensures
        selects(
            disabled_views(keys, users),
            keys,
            |k: ApiKey| !k.enabled,
            |k: ApiKey| view_of(k, name_in(users, k.user_id)),
        ),
{
    let keep = |k: ApiKey| !k.enabled;
    let shown = |k: ApiKey| view_of(k, name_in(users, k.user_id));
    lemma_disabled_are_picked(keys, users);
    lemma_picked_selects(keys, keep, shown, keep, shown);
}

/// The active key of a group is its first enabled one.
pub proof fn the_first_enabled_key_is_active(s: Seq<ApiKey>, i: int)
    ensures
        0 <= i < s.len() && s[i].enabled && (forall|j: int| 0 <= j < i ==> !((#[trigger] s[j]).enabled)) ==> active_key(s) == Some(s[i]),
        (forall|j: int| 0 <= j < s.len() ==> !((#[trigger] s[j]).enabled)) ==> active_key(s) is None,
    decreases s.len(),
{
    if s.len() > 0 {
        let rest = s.drop_first();
        the_first_enabled_key_is_active(rest, i - 1);
        assert(forall|j: int| 0 <= j < rest.len() ==> #[trigger] rest[j] == s[j + 1]);
        if 0 <= i < s.len() && s[i].enabled && (forall|j: int| 0 <= j < i ==> !((#[trigger] s[j]).enabled)) && i > 0 {
            assert(!(s[0].enabled));
            assert forall|j: int| 0 <= j < i - 1 implies !((#[trigger] rest[j]).enabled) by {
                assert(rest[j] == s[j + 1]);
            }
        }
    }
}

/// A key is found by its number, the first of them.
pub proof fn keys_are_found_by_number(s: Seq<ApiKey>, id: i64, i: int)
    ensures
        0 <= i < s.len() && s[i].id == id && (forall|j: int| 0 <= j < i ==> !((#[trigger] s[j]).id == id)) ==> key_with_id(s, id) == Some(s[i]),
        (forall|j: int| 0 <= j < s.len() ==> !((#[trigger] s[j]).id == id)) ==> key_with_id(s, id) is None,
    decreases s.len(),
{
    if s.len() > 0 {
        let rest = s.drop_first();
        keys_are_found_by_number(rest, id, i - 1);
        assert(forall|j: int| 0 <= j < rest.len() ==> #[trigger] rest[j] == s[j + 1]);
        if 0 <= i < s.len() && s[i].id == id && (forall|j: int| 0 <= j < i ==> !((#[trigger] s[j]).id == id)) && i > 0 {
            assert(!(s[0].id == id));
            assert forall|j: int| 0 <= j < i - 1 implies !((#[trigger] rest[j]).id == id) by {
                assert(rest[j] == s[j + 1]);
            }
        }
    }
}

/// The active key of a group is shown with the secret where one is handed out, and gives the
/// group its number; where it has none, all but the first of its old keys are folded away.
pub proof fn active_keys_head_their_group(keys: Seq<ApiKey>, users: Seq<User>, raw: Option<Seq<char>>, k: ApiKey, old_keys: Seq<KeyModel>)
    ensures
        active_key(keys) == Some(k) ==> (active_view(keys, users, raw) matches Some(v) && v.id == k.id
            && v.raw_key == raw && v.user_name == name_in(users, k.user_id) && v.project == opt_text(
            k.project,
        )) && group_id_of(keys, users) == k.id,
        active_key(keys) is None ==> active_view(keys, users, raw) is None,
        active_view(keys, users, raw) matches Some(v) ==> folded(Some(v), old_keys) == old_keys,
        folded(None, old_keys) == old_keys.skip(1),
{
}

/// There is a group for each user and project that a key has, once; and each project is
/// named once.
pub proof fn groups_are_those_of_the_keys(keys: Seq<ApiKey>, g: GroupRank, p: Seq<char>)
    ensures
        groups_of(keys).no_duplicates(),
        groups_of(keys).contains(g) <==> exists|i: int|
            0 <= i < keys.len() && (#[trigger] keys[i]).user_id == g.0 && opt_text(keys[i].project)
                == g.1,
        projects_of(keys).no_duplicates(),
        projects_of(keys).contains(p) <==> exists|i: int|
            0 <= i < keys.len() && opt_text((#[trigger] keys[i]).project) == Some(p),
    decreases keys.len(),
{
    if keys.len() > 0 {
        let front = keys.drop_last();
        let n = keys.len() - 1;
        let last = group_of(keys.last());
        groups_are_those_of_the_keys(front, g, p);
        groups_are_those_of_the_keys(front, last, p);
        assert(keys[n] == keys.last());
        assert(forall|i: int| 0 <= i < front.len() ==> #[trigger] front[i] == keys[i]);
        let old_groups = groups_of(front);
        let new_groups = groups_of(keys);
        if old_groups.contains(g) {
            let k = choose|k: int| 0 <= k < old_groups.len() && old_groups[k] == g;
            assert(new_groups[k] == g);
            let i = choose|i: int|
                0 <= i < front.len() && (#[trigger] front[i]).user_id == g.0 && opt_text(
                    front[i].project,
                ) == g.1;
            assert(keys[i].user_id == g.0);
        } else {
            if last == g {
                assert(new_groups[old_groups.len() as int] == g);
                assert(keys[n].user_id == g.0);
            } else {
                assert(!new_groups.contains(g)) by {
                    if new_groups.contains(g) {
                        let k = choose|k: int| 0 <= k < new_groups.len() && new_groups[k] == g;
                        if k < old_groups.len() {
                            assert(old_groups[k] == g);
                        }
                    }
                }
                assert forall|i: int| 0 <= i < keys.len() implies !((#[trigger] keys[i]).user_id == g.0
                    && opt_text(keys[i].project) == g.1) by {
                    if i < n {
                        assert(front[i] == keys[i]);
                    }
                }
            }
        }
        let old_projects = projects_of(front);
        let new_projects = projects_of(keys);
        if old_projects.contains(p) {
            let k = choose|k: int| 0 <= k < old_projects.len() && old_projects[k] == p;
            assert(new_projects[k] == p);
            let i = choose|i: int|
                0 <= i < front.len() && opt_text((#[trigger] front[i]).project) == Some(p);
            assert(opt_text(keys[i].project) == Some(p));
        } else {
            if opt_text(keys.last().project) == Some(p) {
                assert(new_projects[old_projects.len() as int] == p);
                assert(opt_text(keys[n].project) == Some(p));
            } else {
                assert(!new_projects.contains(p)) by {
                    if new_projects.contains(p) {
                        let k = choose|k: int| 0 <= k < new_projects.len() && new_projects[k] == p;
                        if k < old_projects.len() {
                            assert(old_projects[k] == p);
                        }
                    }
                }
                assert forall|i: int| 0 <= i < keys.len() implies opt_text(
                    (#[trigger] keys[i]).project,
                ) != Some(p) by {
                    if i < n {
                        assert(front[i] == keys[i]);
                    }
                }
            }
        }
    }
}

/// What is recorded of a new key is its owner, project and label; of a rotation, the owner and
/// the key that was replaced.
pub proof fn keys_are_recorded(user_id: i64, project: Option<Seq<char>>, label: Option<Seq<char>>, replaced: i64)
    ensures
        exists|o: JsonModel|
            new_key_json(user_id, project, label) == #[trigger] text_of_json(o) && o.at("user_id"@)
                == JsonModel::Int(user_id as int) && o.at("project"@) == text_or_null(project) && o.at(
                "label"@,
            ) == text_or_null(label),
        exists|o: JsonModel|
            rotation_json(user_id, replaced) == #[trigger] text_of_json(o) && o.at("user_id"@)
                == JsonModel::Int(user_id as int) && o.at("replaced_key_id"@) == JsonModel::Int(
                replaced as int,
            ),
{
    broadcast use {
        crate::ordered::entries_are_found,
        crate::ordered::nothing_is_found_in_nothing,
    };

    reveal_strlit("user_id");
    reveal_strlit("project");
    reveal_strlit("label");
    reveal_strlit("replaced_key_id");
    assert("user_id"@.len() == 7 && "user_id"@[0] == 'u');
    assert("project"@.len() == 7 && "project"@[0] == 'p');
    assert("label"@.len() == 5);
    assert("replaced_key_id"@.len() == 15);
    let o = with_entry(Seq::empty(), "user_id"@, JsonModel::Int(user_id as int));
    let p = JsonModel::Obj(with_entry(o, "replaced_key_id"@, JsonModel::Int(replaced as int)));
    assert(rotation_json(user_id, replaced) == text_of_json(p));
    let o = with_entry(o, "project"@, text_or_null(project));
    let o = JsonModel::Obj(with_entry(o, "label"@, text_or_null(label)));
    assert(new_key_json(user_id, project, label) == text_of_json(o));
}

/// A search for a key goes to the user that was found and the project that was asked for.
pub proof fn keys_are_sought_for_the_user(flow: KeyFlow, next: KeyFlow, user: User, step: KeyStep)
    requires
        flow.seeks_key(next, user, step),
    ensures
        next.phase matches KeyPhase::FindingKey(owner) && owner.id == user.id && owner.name@ == user.name@,
        step matches KeyStep::FindKey { user_id, project } && user_id == user.id && opt_text(project)
            == opt_text(flow.project),
        next.same_request(flow) ==> next.user_name == flow.user_name && next.project == flow.project
            && next.label == flow.label,
{
}

/// What is shown of a key is shown part by part.
pub proof fn keys_show_their_parts(k: KeyView)
    ensures
        k@.id == k.id,
        k@.user_id == k.user_id,
        k@.user_name == k.user_name@,
        k@.project == opt_text(k.project),
        k@.label == opt_text(k.label),
        k@.enabled == k.enabled,
        k@.created_at == k.created_at@,
        k@.disabled_at == opt_text(k.disabled_at),
        k@.raw_key == opt_text(k.raw_key),
{
}

/// A secret is shown in the row of its key, to be read and to be copied, and nowhere where
/// there is none; a group says how many old keys it has.
pub proof fn secrets_are_shown_in_their_row(
    raw: Seq<char>,
    group: Seq<char>,
    n: nat,
    open: bool,
    name: Seq<char>,
    project: Option<Seq<char>>,
    body: Seq<char>,
)
    ensures
        raw_key_fragment(None) == Seq::<char>::empty(),
        contains_text(raw_key_fragment(Some(raw)), escaped(raw) + "</code>"@),
        toggle_fragment(group, 0, open) == Seq::<char>::empty(),
        n > 1 ==> contains_text(toggle_fragment(group, n, open), nat_text(n) + " old keys"@),
        contains_text(created_fragment(name, project, raw, body), escaped(raw) + "</code>"@),
        contains_text(
            created_fragment(name, project, raw, body),
            "<template id=\"__new_group__\">"@ + body + "</template>"@,
        ),
{
    reveal_strlit("");
    assert(raw_key_fragment(None) =~= Seq::<char>::empty());
    assert(toggle_fragment(group, 0, open) =~= Seq::<char>::empty());
    let head = "<br><span style=\"display:inline-flex;align-items:center;gap:0.4rem;margin-top:0.4rem;\"><code style=\"color:green;font-family:monospace;font-size:0.85rem;background:#f0fff0;padding:0.2rem 0.4rem;border-radius:3px;border:1px solid #c3e6cb;\">"@;
    let copy = "</code><button type=\"button\" title=\"Copy to clipboard\" onclick=\"navigator.clipboard.writeText('"@;
    reveal_strlit("</code><button type=\"button\" title=\"Copy to clipboard\" onclick=\"navigator.clipboard.writeText('");
    reveal_strlit("</code>");
    let part = escaped(raw) + "</code>"@;
    let at = head.len() as int;
    assert(raw_key_fragment(Some(raw)).subrange(at, at + part.len()) =~= part);
    if n > 1 {
        let arrow = if open {
            "\u{25bc}"@
        } else {
            "\u{25b6}"@
        };
        let lead = " <button id=\"toggle-"@ + group + "\" type=\"button\" onclick=\"toggleGroup('"@ + group
            + "')\" class=\"btn btn-secondary\" data-count=\""@ + nat_text(n) + "\">"@ + arrow + " "@;
        let words = nat_text(n) + " old keys"@;
        let from = lead.len() as int;
        assert(toggle_fragment(group, n, open).subrange(from, from + words.len()) =~= words);
    }
    lemma_created_fragment(name, project, raw, body);
}

proof fn lemma_created_fragment(
    name: Seq<char>,
    project: Option<Seq<char>>,
    raw: Seq<char>,
    body: Seq<char>,
)
    ensures
        contains_text(created_fragment(name, project, raw, body), escaped(raw) + "</code>"@),
        contains_text(
            created_fragment(name, project, raw, body),
            "<template id=\"__new_group__\">"@ + body + "</template>"@,
        ),
{
    let shown = match project {
        Some(p) => " / "@ + p,
        None => ""@,
    };
    let a = "<div class=\"alert\" style=\"background:#d4edda;border:1px solid #c3e6cb;color:#155724;display:flex;align-items:center;gap:1rem;flex-wrap:wrap;\"><span>\u{2713} Key created for <strong>"@
        + escaped(name) + "</strong>"@ + shown
        + ". Copy it now \u{2014} it won't be shown again:</span><code style=\"font-family:monospace;background:#f0fff0;padding:0.2rem 0.4rem;border-radius:3px;border:1px solid #c3e6cb;\">"@;
    let b = "</code><button type=\"button\" onclick=\"navigator.clipboard.writeText('"@;
    let c = "').then(function(){var b=this;b.textContent='\u{2713} Copied';setTimeout(function(){b.textContent='\u{29c9} Copy'},1500)}.bind(this))\" class=\"btn btn-secondary\">\u{29c9} Copy</button></div><template id=\"__new_group__\">"@;
    let d = "</template><script>(function(){var t=document.getElementById('__new_group__');var el=t.content.firstElementChild.cloneNode(true);var table=document.getElementById('keys-table');var first=table.querySelector('tbody');table.insertBefore(el,first||null);htmx.process(el);t.remove();})();</script>"@;
    reveal_strlit("</code><button type=\"button\" onclick=\"navigator.clipboard.writeText('");
    reveal_strlit("</code>");
    reveal_strlit("').then(function(){var b=this;b.textContent='\u{2713} Copied';setTimeout(function(){b.textContent='\u{29c9} Copy'},1500)}.bind(this))\" class=\"btn btn-secondary\">\u{29c9} Copy</button></div><template id=\"__new_group__\">");
    reveal_strlit("</template><script>(function(){var t=document.getElementById('__new_group__');var el=t.content.firstElementChild.cloneNode(true);var table=document.getElementById('keys-table');var first=table.querySelector('tbody');table.insertBefore(el,first||null);htmx.process(el);t.remove();})();</script>");
    reveal_strlit("<template id=\"__new_group__\">");
    reveal_strlit("</template>");
    let all = created_fragment(name, project, raw, body);
    let part = escaped(raw) + "</code>"@;
    let at = a.len() as int;
    assert(all.subrange(at, at + part.len()) =~= part);
    let tpl = "<template id=\"__new_group__\">"@;
    let piece = tpl + body + "</template>"@;
    let from = a.len() + escaped(raw).len() + b.len() + escaped(raw).len() + c.len() - tpl.len();
    assert(all.subrange(from, from + piece.len()) =~= piece);
}

} // verus!
