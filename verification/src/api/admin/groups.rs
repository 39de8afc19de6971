//! The page of groups: a card for each, with its members.

use crate::api::admin::audit::{entry, entry_of, name_of, named};
use crate::api::admin::dashboard::{
    status_tag, status_tag_of, DashboardError, SuperDashboardSession,
};
use crate::api::admin::templates::{can_be_cut, fmt_ts, is_cuttable, shown_time};
use crate::json::{json_int, text_of_json, Json, JsonModel};
use crate::ordered::with_entry;
use crate::records::{NewAuditLogEntry, User};
use crate::text::{
    contains_text, escaped, fill, filled, he, i64_text, int_text, lemma_first_named, opt_text,
    pairs, trim, trimmed, value_named,
};
use vstd::prelude::*;

verus! {

/// A group of callers.
#[derive(Debug, Clone, PartialEq, Eq)]
pub struct Group {
    pub id: i64,
    pub name: String,
    pub priority: i64,
    pub enabled: bool,
}

/// A caller's membership in a group.
#[derive(Debug, Clone, PartialEq, Eq)]
pub struct GroupMembership {
    pub id: i64,
    pub user_id: i64,
    pub user_name: String,
    pub joined_at: String,
    pub disabled_at: Option<String>,
}

impl GroupMembership {
    /// Whether the timestamps can be shown.
    pub open spec fn showable(self) -> bool {
        &&& is_cuttable(self.joined_at@)
        &&& (self.disabled_at matches Some(t) ==> is_cuttable(t@))
    }
}

pub open spec fn all_showable(members: Seq<GroupMembership>) -> bool {
    forall|i: int| 0 <= i < members.len() ==> (#[trigger] members[i]).showable()
}

/// Whether the timestamps of all members can be shown.
pub fn can_be_shown(members: &Vec<GroupMembership>) -> (r: bool)
    ensures
        r == all_showable(members@),
{
    let mut i: usize = 0;
    while i < members.len()
        invariant
            i <= members@.len(),
            forall|j: int| 0 <= j < i ==> (#[trigger] members@[j]).showable(),
        decreases members@.len() - i,
    {
        let m = &members[i];
        let left = match &m.disabled_at {
            Some(t) => can_be_cut(t.as_str()),
            None => true,
        };
        if !left || !can_be_cut(m.joined_at.as_str()) {
            assert(!members@[i as int].showable());
            return false;
        }
        i += 1;
    }
    true
}

// ---------------------------------------------------------------------------
// Members
// ---------------------------------------------------------------------------

pub const NO_MEMBERS: &'static str =
    "<tr><td colspan=\"4\" style=\"color:#999;text-align:center;padding:0.5rem;\">No members yet.</td></tr>";

pub const DISABLE_MEMBER: &'static str =
    "<button class=\"btn btn-danger\" style=\"font-size:0.8rem;padding:0.3rem 0.7rem;\" hx-post=\"/admin/groups/{group}/members/{user}/disable\" hx-target=\"#group-card-{group}\" hx-swap=\"outerHTML\" hx-confirm=\"Disable {name} from this group?\">Disable</button>";

pub open spec fn member_status(disabled_at: Option<Seq<char>>) -> Seq<char> {
    match disabled_at {
        None => "<span class=\"tag tag-enabled\">Active</span>"@,
        Some(t) => "<span class=\"tag tag-disabled\">Disabled "@ + escaped(shown_time(t))
            + "</span>"@,
    }
}

/// The table row of a member. Only a current one can be taken out.
pub open spec fn member_row(m: GroupMembership, group_id: i64) -> Seq<char> {
    let action = if m.disabled_at is None {
        filled(
            DISABLE_MEMBER@,
            seq![
                ("group"@, int_text(group_id as int)),
                ("user"@, int_text(m.user_id as int)),
                ("name"@, escaped(m.user_name@)),
            ],
        )
    } else {
        ""@
    };
    "<tr><td>"@ + escaped(m.user_name@) + "</td><td>"@ + shown_time(m.joined_at@) + "</td><td>"@
        + member_status(opt_text(m.disabled_at)) + "</td><td>"@ + action + "</td></tr>"@
}

fn member_row_html(m: &GroupMembership, group_id: i64) -> (r: String)
    requires
        m.showable(),
    ensures
        r@ == member_row(*m, group_id),
{
    let name = he(m.user_name.as_str());
    let status = match &m.disabled_at {
        None => "<span class=\"tag tag-enabled\">Active</span>".to_owned(),
        Some(t) => "<span class=\"tag tag-disabled\">Disabled ".to_owned().concat(
            he(fmt_ts(t.as_str()).as_str()).as_str(),
        ).concat("</span>"),
    };
    let action = if m.disabled_at.is_none() {
        let group = i64_text(group_id);
        let user = i64_text(m.user_id);
        let values = vec![
            ("group", group.as_str()),
            ("user", user.as_str()),
            ("name", name.as_str()),
        ];
        let r = fill(DISABLE_MEMBER, &values);
        assert(pairs(values@) =~= seq![("group"@, group@), ("user"@, user@), ("name"@, name@)]);
        r
    } else {
        "".to_owned()
    };
    "<tr><td>".to_owned().concat(name.as_str()).concat("</td><td>").concat(
        fmt_ts(m.joined_at.as_str()).as_str(),
    ).concat("</td><td>").concat(status.as_str()).concat("</td><td>").concat(
        action.as_str(),
    ).concat("</td></tr>")
}

pub open spec fn member_rows(members: Seq<GroupMembership>, group_id: i64) -> Seq<char>
    decreases members.len(),
{
    if members.len() == 0 {
        ""@
    } else {
        member_rows(members.drop_last(), group_id) + member_row(members.last(), group_id)
    }
}

/// The rows of the members of a group.
pub open spec fn membership_rows(members: Seq<GroupMembership>, group_id: i64) -> Seq<char> {
    if members.len() == 0 {
        NO_MEMBERS@
    } else {
        member_rows(members, group_id)
    }
}

pub fn membership_rows_html(members: &Vec<GroupMembership>, group_id: i64) -> (r: String)
    requires
        all_showable(members@),
    ensures
        r@ == membership_rows(members@, group_id),
{
    if members.len() == 0 {
        return NO_MEMBERS.to_owned();
    }
    let mut out: String = "".to_owned();
    let mut i: usize = 0;
    assert(members@.take(0) =~= Seq::empty());
    while i < members.len()
        invariant
            i <= members@.len(),
            all_showable(members@),
            out@ == member_rows(members@.take(i as int), group_id),
        decreases members@.len() - i,
    {
        assert(members@.take(i + 1).drop_last() =~= members@.take(i as int));
        let row = member_row_html(&members[i], group_id);
        out.append(row.as_str());
        i += 1;
    }
    assert(members@.take(members@.len() as int) =~= members@);
    out
}

/// Whether a caller is in a group at present.
pub open spec fn is_member(members: Seq<GroupMembership>, user_id: i64) -> bool {
    exists|i: int|
        0 <= i < members.len() && (#[trigger] members[i]).user_id == user_id
            && members[i].disabled_at is None
}

fn has_member(members: &Vec<GroupMembership>, user_id: i64) -> (r: bool)
    ensures
        r == is_member(members@, user_id),
{
    let mut i: usize = 0;
    while i < members.len()
        invariant
            i <= members@.len(),
            forall|j: int|
                0 <= j < i ==> !((#[trigger] members@[j]).user_id == user_id
                    && members@[j].disabled_at is None),
        decreases members@.len() - i,
    {
        if members[i].user_id == user_id && members[i].disabled_at.is_none() {
            return true;
        }
        i += 1;
    }
    false
}

/// The callers that can be added: enabled, and not in the group.
pub open spec fn options_of(users: Seq<User>, members: Seq<GroupMembership>) -> Seq<char>
    decreases users.len(),
{
    if users.len() == 0 {
        ""@
    } else {
        let rest = options_of(users.drop_last(), members);
        let u = users.last();
        if u.enabled && !is_member(members, u.id) {
            rest + ("<option value=\""@ + int_text(u.id as int) + "\">"@ + escaped(u.name@)
                + "</option>"@)
        } else {
            rest
        }
    }
}

fn options_html(users: &Vec<User>, members: &Vec<GroupMembership>) -> (r: String)
    ensures
        r@ == options_of(users@, members@),
{
    let mut out: String = "".to_owned();
    let mut i: usize = 0;
    assert(users@.take(0) =~= Seq::empty());
    while i < users.len()
        invariant
            i <= users@.len(),
            out@ == options_of(users@.take(i as int), members@),
        decreases users@.len() - i,
    {
        assert(users@.take(i + 1).drop_last() =~= users@.take(i as int));
        let u = &users[i];
        if u.enabled && !has_member(members, u.id) {
            let option = "<option value=\"".to_owned().concat(i64_text(u.id).as_str()).concat(
                "\">",
            ).concat(he(u.name.as_str()).as_str()).concat("</option>");
            out.append(option.as_str());
        }
        i += 1;
    }
    assert(users@.take(users@.len() as int) =~= users@);
    out
}

pub const ALL_MEMBERS: &'static str =
    "<span style=\"color:#999;font-size:0.85rem;\">All users are already members.</span>";

pub const ADD_MEMBER: &'static str =
    "<form hx-post=\"/admin/groups/{gid}/members\" hx-target=\"#group-card-{gid}\" hx-swap=\"outerHTML\" style=\"display:flex;gap:0.5rem;align-items:center;margin-top:0.75rem;\">
            <select name=\"user_id\" style=\"padding:0.35rem 0.5rem;border:1px solid #ccc;border-radius:4px;font-size:0.85rem;\">
                {options}
            </select>
            <button type=\"submit\" class=\"btn btn-primary\" style=\"font-size:0.85rem;padding:0.35rem 0.7rem;\">Add Member</button>
        </form>";

/// The form that adds a member.
pub open spec fn add_member_select(
    group_id: i64,
    members: Seq<GroupMembership>,
    users: Seq<User>,
) -> Seq<char> {
    let options = options_of(users, members);
    if options.len() == 0 {
        ALL_MEMBERS@
    } else {
        filled(ADD_MEMBER@, seq![("gid"@, int_text(group_id as int)), ("options"@, options)])
    }
}

pub fn add_member_select_html(
    group_id: i64,
    members: &Vec<GroupMembership>,
    all_users: &Vec<User>,
) -> (r: String)
    ensures
        r@ == add_member_select(group_id, members@, all_users@),
{
    let options = options_html(all_users, members);
    if options.as_str().is_empty() {
        return ALL_MEMBERS.to_owned();
    }
    let gid = i64_text(group_id);
    let values = vec![("gid", gid.as_str()), ("options", options.as_str())];
    let r = fill(ADD_MEMBER, &values);
    assert(pairs(values@) =~= seq![("gid"@, gid@), ("options"@, options@)]);
    r
}

// ---------------------------------------------------------------------------
// Cards
// ---------------------------------------------------------------------------

pub const PRIORITY_BADGE: &'static str =
    "<span style=\"font-size:0.75rem;background:#e8eaf6;color:#3949ab;padding:0.2rem 0.5rem;border-radius:3px;\">priority {priority}</span>";

pub const DISABLE_GROUP: &'static str =
    "<button class=\"btn btn-danger\" hx-post=\"/admin/groups/{id}/disable\" hx-target=\"#group-card-{id}\" hx-swap=\"outerHTML\" hx-confirm=\"Disable group {name}? All active memberships will be disabled.\">Disable Group</button>";

pub const ENABLE_GROUP: &'static str =
    "<button class=\"btn btn-success\" hx-post=\"/admin/groups/{id}/enable\" hx-target=\"#group-card-{id}\" hx-swap=\"outerHTML\">Re-enable Group</button>";

pub const GROUP_CARD: &'static str =
    "<div id=\"group-card-{id}\" style=\"background:{bg};border-radius:6px;box-shadow:0 1px 3px rgba(0,0,0,0.1);padding:1.25rem;margin-bottom:1rem;\">
            <div style=\"display:flex;align-items:center;gap:0.75rem;margin-bottom:1rem;\">
                <strong style=\"font-size:1rem;\">{name}</strong>
                {priority_badge}
                {status_tag}
                <span style=\"flex:1\"></span>
                {action_btn}
            </div>
            <table style=\"width:100%;border-collapse:collapse;font-size:0.85rem;\">
                <thead>
                    <tr style=\"background:#f0f0f0;\">
                        <th style=\"padding:0.4rem 0.75rem;text-align:left;\">User</th>
                        <th style=\"padding:0.4rem 0.75rem;text-align:left;\">Joined</th>
                        <th style=\"padding:0.4rem 0.75rem;text-align:left;\">Status</th>
                        <th style=\"padding:0.4rem 0.75rem;text-align:left;\">Actions</th>
                    </tr>
                </thead>
                <tbody>{member_rows}</tbody>
            </table>
            {add_member_html}
        </div>";

/// The card of a group. Members can be added only while it is enabled.
pub open spec fn group_card(g: Group, members: Seq<GroupMembership>, users: Seq<User>) -> Seq<char> {
    let id = int_text(g.id as int);
    filled(
        GROUP_CARD@,
        seq![
            ("id"@, id),
            (
                "bg"@,
                if g.enabled {
                    "#fff"@
                } else {
                    "#f5f5f5"@
                },
            ),
            ("name"@, escaped(g.name@)),
            (
                "priority_badge"@,
                filled(PRIORITY_BADGE@, seq![("priority"@, int_text(g.priority as int))]),
            ),
            ("status_tag"@, status_tag_of(g.enabled)),
            (
                "action_btn"@,
                filled(
                    if g.enabled {
                        DISABLE_GROUP@
                    } else {
                        ENABLE_GROUP@
                    },
                    seq![("id"@, id), ("name"@, escaped(g.name@))],
                ),
            ),
            ("member_rows"@, membership_rows(members, g.id)),
            (
                "add_member_html"@,
                if g.enabled {
                    add_member_select(g.id, members, users)
                } else {
                    ""@
                },
            ),
        ],
    )
}

pub fn group_card_html(group: &Group, memberships: &Vec<GroupMembership>, all_users: &Vec<User>) -> (r:
    String)
    requires
        all_showable(memberships@),
    ensures
        r@ == group_card(*group, memberships@, all_users@),
{
    let id = i64_text(group.id);
    let bg = if group.enabled {
        "#fff"
    } else {
        "#f5f5f5"
    };
    let name = he(group.name.as_str());
    let priority = i64_text(group.priority);
    let badge_values = vec![("priority", priority.as_str())];
    let badge = fill(PRIORITY_BADGE, &badge_values);
    assert(pairs(badge_values@) =~= seq![("priority"@, priority@)]);
    let rows = membership_rows_html(memberships, group.id);
    let add = if group.enabled {
        add_member_select_html(group.id, memberships, all_users)
    } else {
        "".to_owned()
    };
    let action_values = vec![("id", id.as_str()), ("name", name.as_str())];
    let action = if group.enabled {
        fill(DISABLE_GROUP, &action_values)
    } else {
        fill(ENABLE_GROUP, &action_values)
    };
    assert(pairs(action_values@) =~= seq![("id"@, id@), ("name"@, name@)]);
    let values = vec![
        ("id", id.as_str()),
        ("bg", bg),
        ("name", name.as_str()),
        ("priority_badge", badge.as_str()),
        ("status_tag", status_tag(group.enabled)),
        ("action_btn", action.as_str()),
        ("member_rows", rows.as_str()),
        ("add_member_html", add.as_str()),
    ];
    let r = fill(GROUP_CARD, &values);
    assert(pairs(values@) =~= seq![
        ("id"@, id@),
        ("bg"@, bg@),
        ("name"@, name@),
        ("priority_badge"@, badge@),
        ("status_tag"@, status_tag_of(group.enabled)),
        ("action_btn"@, action@),
        ("member_rows"@, rows@),
        ("add_member_html"@, add@),
    ]);
    r
}

/// The group of a card that is shown again, or that a member is added to.
pub fn find_group<'a>(id: i64, found: &'a Option<Group>) -> (r: Result<&'a Group, DashboardError>)
    ensures
        match *found {
            Some(g) => r matches Ok(h) && *h == g,
            None => r matches Err(DashboardError::NotFound(m)) && m@ == "group "@ + int_text(id as int),
        },
{
    match found {
        Some(g) => Ok(g),
        None => Err(DashboardError::NotFound("group ".to_owned().concat(i64_text(id).as_str()))),
    }
}

// ---------------------------------------------------------------------------
// Creating and changing a group
// ---------------------------------------------------------------------------

#[derive(Debug, Clone, PartialEq, Eq)]
pub struct CreateGroupForm {
    pub name: String,
    pub priority: Option<i64>,
}

impl CreateGroupForm {
    /// The name and the priority that the form asks for.
    pub fn check(&self) -> (r: Result<(String, i64), DashboardError>)
        ensures
            trimmed(self.name@).len() == 0 ==> (r matches Err(DashboardError::BadRequest(m)) && m@
                == "name is required"@),
            trimmed(self.name@).len() > 0 ==> (r matches Ok((name, priority)) && name@ == trimmed(
                self.name@,
            ) && priority == match self.priority {
                Some(p) => p,
                None => 0,
            }),
    {
        let name = trim(self.name.as_str());
        if name.is_empty() {
            return Err(DashboardError::BadRequest("name is required".to_owned()));
        }
        let priority: i64 = match self.priority {
            Some(p) => p,
            None => 0,
        };
        Ok((name.to_owned(), priority))
    }
}

/// What is shown where a group of that name exists.
pub fn duplicate_html(name: &str) -> (r: String)
    ensures
        r@ == "<div class=\"alert alert-danger\">Group name \""@ + escaped(name@)
            + "\" already exists.</div>"@,
{
    "<div class=\"alert alert-danger\">Group name \"".to_owned().concat(
        he(name).as_str(),
    ).concat("\" already exists.</div>")
}

pub open spec fn new_group_json(g: Group) -> Seq<char> {
    let o = with_entry(Seq::empty(), "name"@, JsonModel::Str(g.name@));
    text_of_json(JsonModel::Obj(with_entry(o, "priority"@, JsonModel::Int(g.priority as int))))
}

/// The audit line of a new group.
pub fn created_group(session: &SuperDashboardSession, g: &Group) -> (r: NewAuditLogEntry)
    ensures
        r@ == entry_of(session.0, "group.create"@, named("group"@, g.id), Some(new_group_json(*g))),
{
    let after = Json::object().with("name", Json::Str(g.name.clone())).with(
        "priority",
        json_int(g.priority),
    ).to_text();
    entry(&session.0, "group.create", name_of("group", g.id), Some(after))
}

pub const NEW_CARD_HEAD: &'static str =
    "<div></div>
        <script>
            (function() {
                var list = document.getElementById('groups-list');
                var tmp = document.createElement('div');
                tmp.innerHTML = ";

pub const NEW_CARD_TAIL: &'static str =
    ";
                list.prepend(tmp.firstElementChild);
                htmx.process(list.firstElementChild);
            })();
        </script>";

/// The script that puts the card of a new group on the page.
pub fn created_group_html(card: &str) -> (r: String)
    ensures
        r@ == NEW_CARD_HEAD@ + text_of_json(JsonModel::Str(card@)) + NEW_CARD_TAIL@,
{
    let literal = Json::Str(card.to_owned()).to_text();
    NEW_CARD_HEAD.to_owned().concat(literal.as_str()).concat(NEW_CARD_TAIL)
}

/// The audit line of a group that was turned off or on.
pub fn toggled_group(session: &SuperDashboardSession, id: i64, enabled: bool) -> (r: NewAuditLogEntry)
    ensures
        r@ == entry_of(
            session.0,
            if enabled {
                "group.enable"@
            } else {
                "group.disable"@
            },
            named("group"@, id),
            Some(
                if enabled {
                    "{\"enabled\":true}"@
                } else {
                    "{\"enabled\":false}"@
                },
            ),
        ),
{
    let (action, after) = if enabled {
        ("group.enable", "{\"enabled\":true}")
    } else {
        ("group.disable", "{\"enabled\":false}")
    };
    entry(&session.0, action, name_of("group", id), Some(after.to_owned()))
}

// ---------------------------------------------------------------------------
// Adding and removing a member
// ---------------------------------------------------------------------------

#[derive(Debug, Clone, Copy, PartialEq, Eq)]
pub struct AddMemberForm {
    pub user_id: i64,
}

/// Whether a caller may join: the group exists and is enabled, and the caller is
/// not in it.
pub fn may_join(id: i64, found: &Option<Group>, is_active_member: bool) -> (r: Result<(), DashboardError>)
    ensures
        match *found {
            None => r matches Err(DashboardError::NotFound(m)) && m@ == "group "@ + int_text(id as int),
            Some(g) => if !g.enabled {
                r matches Err(DashboardError::BadRequest(m)) && m@
                    == "cannot add members to a disabled group"@
            } else if is_active_member {
                r matches Err(DashboardError::BadRequest(m)) && m@
                    == "user is already an active member"@
            } else {
                r is Ok
            },
        },
{
    let group = match find_group(id, found) {
        Ok(g) => g,
        Err(e) => {
            return Err(e);
        },
    };
    if !group.enabled {
        return Err(
            DashboardError::BadRequest("cannot add members to a disabled group".to_owned()),
        );
    }
    if is_active_member {
        return Err(DashboardError::BadRequest("user is already an active member".to_owned()));
    }
    Ok(())
}

/// The membership that is to end.
pub fn active_membership(found: Option<i64>) -> (r: Result<i64, DashboardError>)
    ensures
        match found {
            Some(id) => r == Ok::<i64, DashboardError>(id),
            None => r matches Err(DashboardError::NotFound(m)) && m@ == "active membership"@,
        },
{
    match found {
        Some(id) => Ok(id),
        None => Err(DashboardError::NotFound("active membership".to_owned())),
    }
}

pub open spec fn member_target(group_id: i64, user_id: i64) -> Seq<char> {
    named("group"@, group_id) + " "@ + named("user"@, user_id)
}

pub open spec fn membership_json(id: i64) -> Seq<char> {
    text_of_json(
        JsonModel::Obj(with_entry(Seq::empty(), "membership_id"@, JsonModel::Int(id as int))),
    )
}

/// The audit line of a member that was added or taken out.
pub fn member_changed(
    session: &SuperDashboardSession,
    group_id: i64,
    user_id: i64,
    membership_id: i64,
    added: bool,
) -> (r: NewAuditLogEntry)
    ensures
        r@ == entry_of(
            session.0,
            if added {
                "group.member.add"@
            } else {
                "group.member.disable"@
            },
            member_target(group_id, user_id),
            Some(membership_json(membership_id)),
        ),
{
    let action = if added {
        "group.member.add"
    } else {
        "group.member.disable"
    };
    let target = name_of("group", group_id).concat(" ").concat(name_of("user", user_id).as_str());
    let after = Json::object().with("membership_id", json_int(membership_id)).to_text();
    entry(&session.0, action, target, Some(after))
}

// ---------------------------------------------------------------------------
// Laws
// ---------------------------------------------------------------------------

/// Nobody can be chosen who is in the group or is turned off: the choice is the
/// same without them.
pub proof fn only_outsiders_can_be_added(
    front: Seq<User>,
    u: User,
    back: Seq<User>,
    members: Seq<GroupMembership>,
)
    requires
        !u.enabled || is_member(members, u.id),
    ensures
        options_of(front.push(u) + back, members) == options_of(front + back, members),
    decreases back.len(),
{
    if back.len() == 0 {
        assert(front.push(u) + back =~= front.push(u));
        assert(front.push(u).drop_last() =~= front);
        assert(front + back =~= front);
    } else {
        only_outsiders_can_be_added(front, u, back.drop_last(), members);
        assert((front.push(u) + back).drop_last() =~= front.push(u) + back.drop_last());
        assert((front + back).drop_last() =~= front + back.drop_last());
    }
}

/// Members are shown one row after the other, in their order.
pub proof fn members_are_shown_in_order(s: Seq<GroupMembership>, t: Seq<GroupMembership>, x: GroupMembership, group_id: i64)
    ensures
        member_rows(seq![x], group_id) == member_row(x, group_id),
        member_rows(s + t, group_id) == member_rows(s, group_id) + member_rows(t, group_id),
    decreases t.len(),
{
    reveal_strlit("");
    assert(""@.len() == 0);
    assert(seq![x].drop_last() =~= Seq::<GroupMembership>::empty());
    assert(member_rows(seq![x].drop_last(), group_id).len() == 0);
    assert(member_rows(seq![x], group_id) =~= member_row(x, group_id));
    if t.len() == 0 {
        assert(s + t =~= s);
        assert(member_rows(s, group_id) + member_rows(t, group_id) =~= member_rows(s, group_id));
    } else {
        members_are_shown_in_order(s, t.drop_last(), x, group_id);
        assert((s + t).drop_last() =~= s + t.drop_last());
        assert(member_rows(s + t, group_id) =~= member_rows(s, group_id) + member_rows(t, group_id));
    }
}

/// Those who could join are offered in their order: the enabled users that are no members.
pub proof fn those_outside_are_offered_in_order(s: Seq<User>, t: Seq<User>, x: User, members: Seq<GroupMembership>)
    ensures
        options_of(seq![x], members) == (if x.enabled && (forall|i: int|
            0 <= i < members.len() ==> (#[trigger] members[i]).user_id != x.id
                || members[i].disabled_at is Some) {
            "<option value=\""@ + int_text(x.id as int) + "\">"@ + escaped(x.name@) + "</option>"@
        } else {
            Seq::<char>::empty()
        }),
        options_of(s + t, members) == options_of(s, members) + options_of(t, members),
    decreases t.len(),
{
    reveal_strlit("");
    assert(""@.len() == 0);
    assert(seq![x].drop_last() =~= Seq::<User>::empty());
    assert(options_of(seq![x].drop_last(), members).len() == 0);
    assert(options_of(seq![x], members) =~= (if x.enabled && (forall|i: int|
            0 <= i < members.len() ==> (#[trigger] members[i]).user_id != x.id
                || members[i].disabled_at is Some) {
            "<option value=\""@ + int_text(x.id as int) + "\">"@ + escaped(x.name@) + "</option>"@
        } else {
            Seq::<char>::empty()
        }));
    if t.len() == 0 {
        assert(s + t =~= s);
        assert(options_of(s, members) + options_of(t, members) =~= options_of(s, members));
    } else {
        those_outside_are_offered_in_order(s, t.drop_last(), x, members);
        assert((s + t).drop_last() =~= s + t.drop_last());
        assert(options_of(s + t, members) =~= options_of(s, members) + options_of(t, members));
    }
}

/// A member's row shows their name, when they joined and whether they still belong; only one
/// who does can be removed, from this group and under their own number.
pub proof fn rows_show_the_member(m: GroupMembership, group_id: i64)
    ensures
        contains_text(member_row(m, group_id), "<tr><td>"@ + escaped(m.user_name@) + "</td><td>"@
            + shown_time(m.joined_at@) + "</td><td>"@ + member_status(opt_text(m.disabled_at))),
        m.disabled_at is Some ==> member_row(m, group_id) == "<tr><td>"@ + escaped(m.user_name@)
            + "</td><td>"@ + shown_time(m.joined_at@) + "</td><td>"@ + member_status(opt_text(m.disabled_at))
            + "</td><td>"@ + "</td></tr>"@,
        member_status(None) == "<span class=\"tag tag-enabled\">Active</span>"@,
{
    let head = "<tr><td>"@ + escaped(m.user_name@) + "</td><td>"@ + shown_time(m.joined_at@)
        + "</td><td>"@ + member_status(opt_text(m.disabled_at));
    let row = member_row(m, group_id);
    assert(row.subrange(0, 0int + head.len()) =~= head);
    reveal_strlit("");
    assert(m.disabled_at is Some ==> row =~= head + "</td><td>"@ + "</td></tr>"@);
}

/// A user is a member while they have a membership that was not ended.
pub proof fn members_are_those_not_gone(members: Seq<GroupMembership>, user_id: i64, i: int)
    ensures
        0 <= i < members.len() && members[i].user_id == user_id && members[i].disabled_at is None
            ==> is_member(members, user_id),
        (forall|j: int|
            0 <= j < members.len() ==> (#[trigger] members[j]).user_id != user_id
                || members[j].disabled_at is Some) ==> !is_member(members, user_id),
        member_target(user_id, user_id) == named("group"@, user_id) + " "@ + named("user"@, user_id),
{
}

/// What is recorded of a new group is its name and its priority.
pub proof fn new_groups_are_recorded(g: Group)
    ensures
        exists|o: JsonModel|
            new_group_json(g) == #[trigger] text_of_json(o) && o.at("name"@) == JsonModel::Str(g.name@)
                && o.at("priority"@) == JsonModel::Int(g.priority as int),
{
    broadcast use {
        crate::ordered::entries_are_found,
        crate::ordered::nothing_is_found_in_nothing,
    };

    reveal_strlit("name");
    reveal_strlit("priority");
    assert("name"@.len() == 4);
    assert("priority"@.len() == 8);
    let o = with_entry(Seq::empty(), "name"@, JsonModel::Str(g.name@));
    let o = JsonModel::Obj(with_entry(o, "priority"@, JsonModel::Int(g.priority as int)));
    assert(new_group_json(g) == text_of_json(o));
}

/// A card shows its own group: its number, name and priority, its members, and those who could
/// join it while it is enabled.
pub proof fn cards_show_their_group(g: Group, members: Seq<GroupMembership>, users: Seq<User>)
    ensures
        exists|values: Seq<(Seq<char>, Seq<char>)>|
            group_card(g, members, users) == #[trigger] filled(GROUP_CARD@, values)
                && value_named(values, "id"@) == int_text(g.id as int)
                && value_named(values, "bg"@) == (if g.enabled {
                    "#fff"@
                } else {
                    "#f5f5f5"@
                })
                && value_named(values, "name"@) == escaped(g.name@)
                && value_named(values, "priority_badge"@) == filled(PRIORITY_BADGE@, seq![("priority"@, int_text(g.priority as int))])
                && value_named(values, "status_tag"@) == status_tag_of(g.enabled)
                && value_named(values, "action_btn"@) == filled(
                    if g.enabled {
                        DISABLE_GROUP@
                    } else {
                        ENABLE_GROUP@
                    },
                    seq![("id"@, int_text(g.id as int)), ("name"@, escaped(g.name@))],
                )
                && value_named(values, "member_rows"@) == membership_rows(members, g.id)
                && value_named(values, "add_member_html"@) == (if g.enabled {
                    add_member_select(g.id, members, users)
                } else {
                    ""@
                }),
{
    reveal_strlit("id");
    reveal_strlit("bg");
    reveal_strlit("name");
    reveal_strlit("priority_badge");
    reveal_strlit("status_tag");
    reveal_strlit("action_btn");
    reveal_strlit("member_rows");
    reveal_strlit("add_member_html");
    assert("id"@.len() == 2 && "id"@[0] == 'i');
    assert("bg"@.len() == 2 && "bg"@[0] == 'b');
    assert("name"@.len() == 4);
    assert("priority_badge"@.len() == 14);
    assert("status_tag"@.len() == 10 && "status_tag"@[0] == 's');
    assert("action_btn"@.len() == 10 && "action_btn"@[0] == 'a');
    assert("member_rows"@.len() == 11);
    assert("add_member_html"@.len() == 15);
    let values = seq![
        ("id"@, int_text(g.id as int)),
        ("bg"@, if g.enabled {
                "#fff"@
            } else {
                "#f5f5f5"@
            }),
        ("name"@, escaped(g.name@)),
        ("priority_badge"@, filled(PRIORITY_BADGE@, seq![("priority"@, int_text(g.priority as int))])),
        ("status_tag"@, status_tag_of(g.enabled)),
        ("action_btn"@, filled(
                if g.enabled {
                    DISABLE_GROUP@
                } else {
                    ENABLE_GROUP@
                },
                seq![("id"@, int_text(g.id as int)), ("name"@, escaped(g.name@))],
            )),
        ("member_rows"@, membership_rows(members, g.id)),
        ("add_member_html"@, if g.enabled {
                add_member_select(g.id, members, users)
            } else {
                ""@
            }),
    ];
    lemma_first_named(values, "id"@, 0);
    lemma_first_named(values, "bg"@, 1);
    lemma_first_named(values, "name"@, 2);
    lemma_first_named(values, "priority_badge"@, 3);
    lemma_first_named(values, "status_tag"@, 4);
    lemma_first_named(values, "action_btn"@, 5);
    lemma_first_named(values, "member_rows"@, 6);
    lemma_first_named(values, "add_member_html"@, 7);
    assert(group_card(g, members, users) == filled(GROUP_CARD@, values));
}

} // verus!
