//! Human-readable descriptions of elements, as the element printer shows them.

use vstd::prelude::*;
use crate::model::{Node, Way, Relation, Member, MemberData, Tag};
use crate::text::{dec, signed_dec, pad_left, u64_to_string, i64_to_string, pad_left_string, magnitude};

verus! {

/// `true` or `false`.
pub open spec fn bool_text(b: bool) -> Seq<char> {
    if b { "true"@ } else { "false"@ }
}

pub fn bool_string(b: bool) -> (s: String)
    ensures
        s@ == bool_text(b),
{
    if b { "true".to_owned() } else { "false".to_owned() }
}

/// `s` without its trailing zeros.
pub open spec fn trim_zeros(s: Seq<char>) -> Seq<char>
    decreases s.len(),
{
    if s.len() > 0 && s.last() == '0' { trim_zeros(s.drop_last()) } else { s }
}

/// A coordinate given in 1e-7 degrees, written in degrees without trailing
/// zeros: `8.6933`, `-0.5`, `49`.
pub open spec fn fixed7_text(c: int) -> Seq<char> {
    let m = if c < 0 { -c } else { c };
    let whole = m / 10_000_000;
    let frac = m % 10_000_000;
    (if c < 0 { "-"@ } else { Seq::<char>::empty() }) + dec(whole as nat) + (if frac == 0 {
        Seq::<char>::empty()
    } else {
        "."@ + trim_zeros(pad_left(dec(frac as nat), 7, '0'))
    })
}

/// The length of `s` without its trailing zeros.
fn trimmed_len(s: &str) -> (n: usize)
    ensures
        n <= s@.len(),
        trim_zeros(s@) == s@.subrange(0, n as int),
{
    let mut n = s.unicode_len();
    assert(s@.subrange(0, n as int) =~= s@);
    while n > 0 && s.get_char(n - 1) == '0'
        invariant
            n <= s@.len(),
            trim_zeros(s@) == trim_zeros(s@.subrange(0, n as int)),
        decreases n,
    {
        assert(s@.subrange(0, n as int).drop_last() =~= s@.subrange(0, n - 1));
        n = n - 1;
    }
    proof {
        let t = s@.subrange(0, n as int);
        if t.len() > 0 {
            assert(t.last() == s@[n - 1]);
        }
    }
    n
}

/// A coordinate in 1e-7 degrees, written in degrees.
pub fn fixed7_string(c: i64) -> (s: String)
    ensures
        s@ == fixed7_text(c as int),
{
    let m = magnitude(c);
    let whole = m / 10_000_000;
    let frac = m % 10_000_000;
    let mut s = String::new();
    if c < 0 {
        s.append("-");
    }
    let w = u64_to_string(whole);
    s.append(w.as_str());
    if frac != 0 {
        s.append(".");
        let f = u64_to_string(frac);
        let padded = pad_left_string(f.as_str(), 7, '0');
        let n = trimmed_len(padded.as_str());
        let t = padded.as_str().substring_char(0, n);
        s.append(t);
    }
    proof {
        let mm: int = if c < 0 { -(c as int) } else { c as int };
        assert(m as int == mm);
    }
    assert(s@ =~= fixed7_text(c as int));
    s
}

/// The tag lines of a description: `   'key' = 'value'` each.
pub open spec fn tags_text(tags: Seq<Tag>) -> Seq<char>
    decreases tags.len(),
{
    if tags.len() == 0 {
        Seq::empty()
    } else {
        tags_text(tags.drop_last()) + "   '"@ + tags.last().k@ + "' = '"@ + tags.last().v@ + "'\n"@
    }
}

/// The reference lines of a way's description: `   id` each.
pub open spec fn refs_text(refs: Seq<i64>) -> Seq<char>
    decreases refs.len(),
{
    if refs.len() == 0 {
        Seq::empty()
    } else {
        refs_text(refs.drop_last()) + "   "@ + signed_dec(refs.last() as int) + "\n"@
    }
}

/// `Debug` formatting of a string: the string in double quotes, with
/// special characters escaped.
pub uninterp spec fn debug_text(s: Seq<char>) -> Seq<char>;

/// Whether `ch` is a printable ASCII character other than `"` and `\`.
pub open spec fn plain_char(ch: char) -> bool {
    ' ' <= ch && ch <= '~' && ch != '"' && ch != '\\'
}

/// `format!("{:?}", s)`: the `Debug` text of a string.
#[verifier::external_body]
fn debug_string(s: &str) -> (r: String)
    ensures
        r@ == debug_text(s@),
        (forall|i: int| 0 <= i < s@.len() ==> plain_char(#[trigger] s@[i])) ==> r@ == "\""@ + s@ + "\""@,
{
    format!("{:?}", s)
}

/// The name of a member's kind.
pub open spec fn member_kind_text(m: Member) -> Seq<char> {
    match m {
        Member::Node { .. } => "Node"@,
        Member::Way { .. } => "Way"@,
        Member::Relation { .. } => "Relation"@,
    }
}

/// The data of a member.
pub open spec fn member_data(m: Member) -> MemberData {
    match m {
        Member::Node { member } => member,
        Member::Way { member } => member,
        Member::Relation { member } => member,
    }
}

/// A member as `Debug` shows it: `Node { member: MemberData { id: 5, role: "a" } }`.
pub open spec fn member_text(m: Member) -> Seq<char> {
    member_kind_text(m) + " { member: MemberData { id: "@ + signed_dec(member_data(m).id as int) + ", role: "@
        + debug_text(member_data(m).role@) + " } }"@
}

/// The member lines of a relation's description.
pub open spec fn members_text(members: Seq<Member>) -> Seq<char>
    decreases members.len(),
{
    if members.len() == 0 {
        Seq::empty()
    } else {
        members_text(members.drop_last()) + "   "@ + member_text(members.last()) + "\n"@
    }
}

/// The description of a node.
pub open spec fn node_text(prefix: Seq<char>, n: Node) -> Seq<char> {
    prefix + ": node "@ + signed_dec(n.id as int) + " visible: "@ + bool_text(n.visible)
        + "\n  version:    "@ + signed_dec(n.version as int)
        + "\n  coordinate: lat,lon = "@ + fixed7_text(n.lat7 as int) + ","@ + fixed7_text(n.lon7 as int)
        + "\n  changeset:  "@ + signed_dec(n.changeset as int)
        + "\n  timestamp:  "@ + signed_dec(n.timestamp as int)
        + "\n  uid:        "@ + signed_dec(n.uid as int)
        + "\n  user:       "@ + n.user@
        + "\n  tags:\n"@ + tags_text(n.tags@)
}

/// The first lines of a way's or relation's description.
pub open spec fn header_text(
    prefix: Seq<char>,
    kind: Seq<char>,
    id: i64,
    visible: bool,
    version: i32,
    changeset: i64,
    timestamp: i64,
    uid: i32,
    user: Seq<char>,
) -> Seq<char> {
    prefix + ": "@ + kind + " "@ + signed_dec(id as int) + " visible: "@ + bool_text(visible)
        + "\n  version:   "@ + signed_dec(version as int)
        + "\n  changeset: "@ + signed_dec(changeset as int)
        + "\n  timestamp: "@ + signed_dec(timestamp as int)
        + "\n  uid:       "@ + signed_dec(uid as int)
        + "\n  user:      "@ + user
        + "\n  tags:\n"@
}

/// The description of a way.
pub open spec fn way_text(prefix: Seq<char>, w: Way) -> Seq<char> {
    header_text(prefix, "way"@, w.id, w.visible, w.version, w.changeset, w.timestamp, w.uid, w.user@)
        + tags_text(w.tags@) + "  refs:\n"@ + refs_text(w.refs@)
}

/// The description of a relation.
pub open spec fn relation_text(prefix: Seq<char>, r: Relation) -> Seq<char> {
    header_text(prefix, "relation"@, r.id, r.visible, r.version, r.changeset, r.timestamp, r.uid, r.user@)
        + tags_text(r.tags@) + "  members:\n"@ + members_text(r.members@)
}

fn push_tags(s: &mut String, tags: &Vec<Tag>)
    ensures
        final(s)@ == old(s)@ + tags_text(tags@),
{
    let n = tags.len();
    let mut i: usize = 0;
    while i < n
        invariant
            n == tags@.len(),
            i <= n,
            s@ == old(s)@ + tags_text(tags@.take(i as int)),
        decreases n - i,
    {
        proof {
            assert(tags@.take(i + 1).drop_last() =~= tags@.take(i as int));
        }
        s.append("   '");
        s.append(tags[i].k.as_str());
        s.append("' = '");
        s.append(tags[i].v.as_str());
        s.append("'\n");
        i = i + 1;
    }
    assert(tags@.take(n as int) =~= tags@);
}

fn push_refs(s: &mut String, refs: &Vec<i64>)
    ensures
        final(s)@ == old(s)@ + refs_text(refs@),
{
    let n = refs.len();
    let mut i: usize = 0;
    while i < n
        invariant
            n == refs@.len(),
            i <= n,
            s@ == old(s)@ + refs_text(refs@.take(i as int)),
        decreases n - i,
    {
        proof {
            assert(refs@.take(i + 1).drop_last() =~= refs@.take(i as int));
        }
        s.append("   ");
        s.append(i64_to_string(refs[i]).as_str());
        s.append("\n");
        i = i + 1;
    }
    assert(refs@.take(n as int) =~= refs@);
}

fn member_string(m: &Member) -> (s: String)
    ensures
        s@ == member_text(*m),
{
    let (kind, data) = match m {
        Member::Node { member } => ("Node", member),
        Member::Way { member } => ("Way", member),
        Member::Relation { member } => ("Relation", member),
    };
    let mut s = kind.to_owned();
    s.append(" { member: MemberData { id: ");
    s.append(i64_to_string(data.id).as_str());
    s.append(", role: ");
    s.append(debug_string(data.role.as_str()).as_str());
    s.append(" } }");
    s
}

fn push_members(s: &mut String, members: &Vec<Member>)
    ensures
        final(s)@ == old(s)@ + members_text(members@),
{
    let n = members.len();
    let mut i: usize = 0;
    while i < n
        invariant
            n == members@.len(),
            i <= n,
            s@ == old(s)@ + members_text(members@.take(i as int)),
        decreases n - i,
    {
        proof {
            assert(members@.take(i + 1).drop_last() =~= members@.take(i as int));
        }
        s.append("   ");
        s.append(member_string(&members[i]).as_str());
        s.append("\n");
        i = i + 1;
    }
    assert(members@.take(n as int) =~= members@);
}

/// The description of a node.
pub fn describe_node(prefix: &str, n: &Node) -> (s: String)
    ensures
        s@ == node_text(prefix@, *n),
{
    let mut s = prefix.to_owned();
    s.append(": node ");
    s.append(i64_to_string(n.id).as_str());
    s.append(" visible: ");
    s.append(bool_string(n.visible).as_str());
    s.append("\n  version:    ");
    s.append(i64_to_string(n.version as i64).as_str());
    s.append("\n  coordinate: lat,lon = ");
    s.append(fixed7_string(n.lat7).as_str());
    s.append(",");
    s.append(fixed7_string(n.lon7).as_str());
    s.append("\n  changeset:  ");
    s.append(i64_to_string(n.changeset).as_str());
    s.append("\n  timestamp:  ");
    s.append(i64_to_string(n.timestamp).as_str());
    s.append("\n  uid:        ");
    s.append(i64_to_string(n.uid as i64).as_str());
    s.append("\n  user:       ");
    s.append(n.user.as_str());
    s.append("\n  tags:\n");
    push_tags(&mut s, &n.tags);
    s
}

fn header_string(
    prefix: &str,
    kind: &str,
    id: i64,
    visible: bool,
    version: i32,
    changeset: i64,
    timestamp: i64,
    uid: i32,
    user: &str,
) -> (s: String)
    ensures
        s@ == header_text(prefix@, kind@, id, visible, version, changeset, timestamp, uid, user@),
{
    let mut s = prefix.to_owned();
    s.append(": ");
    s.append(kind);
    s.append(" ");
    s.append(i64_to_string(id).as_str());
    s.append(" visible: ");
    s.append(bool_string(visible).as_str());
    s.append("\n  version:   ");
    s.append(i64_to_string(version as i64).as_str());
    s.append("\n  changeset: ");
    s.append(i64_to_string(changeset).as_str());
    s.append("\n  timestamp: ");
    s.append(i64_to_string(timestamp).as_str());
    s.append("\n  uid:       ");
    s.append(i64_to_string(uid as i64).as_str());
    s.append("\n  user:      ");
    s.append(user);
    s.append("\n  tags:\n");
    s
}

/// The description of a way.
pub fn describe_way(prefix: &str, w: &Way) -> (s: String)
    ensures
        s@ == way_text(prefix@, *w),
{
    let mut s = header_string(prefix, "way", w.id, w.visible, w.version, w.changeset, w.timestamp, w.uid, w.user.as_str());
    push_tags(&mut s, &w.tags);
    s.append("  refs:\n");
    push_refs(&mut s, &w.refs);
    s
}

/// The description of a relation.
pub fn describe_relation(prefix: &str, r: &Relation) -> (s: String)
    ensures
        s@ == relation_text(prefix@, *r),
{
    let mut s = header_string(
        prefix, "relation", r.id, r.visible, r.version, r.changeset, r.timestamp, r.uid, r.user.as_str(),
    );
    push_tags(&mut s, &r.tags);
    s.append("  members:\n");
    push_members(&mut s, &r.members);
    s
}

} // verus!
