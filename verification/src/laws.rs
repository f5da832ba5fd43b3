//! Crate-level laws: properties relating several operations, stated and
//! proved over the models the operations' own contracts use.
use vstd::prelude::*;

use crate::builder::{apply_op, merge_cookies, BuilderModel, BuilderOp};
use crate::chars::{is_name_char, is_value_char, lower_char, lower_name, valid_header_name, valid_header_value};
use crate::cookies::{
    delta_model, jar_add, jar_mark_original, jar_remove, removal_model, staged_name, wire_of,
    CookieModel, JarModel,
};
use crate::head::{keep_alive_of, upgrade_of, HeadModel};
use crate::headers::{hm_append_model, HEADER_CAP};

verus! {

/// The model after applying each of `ops` in order.
pub open spec fn apply_ops(m: BuilderModel, ops: Seq<BuilderOp>) -> BuilderModel
    decreases ops.len(),
{
    if ops.len() == 0 {
        m
    } else {
        apply_ops(apply_op(m, ops[0]), ops.drop_first())
    }
}

/// Once a fault is latched, no sequence of later header or cookie
/// mutations changes the builder at all: the terminal call then reflects
/// only the error conversion, whatever was attempted in between.
pub proof fn lemma_sticky_error(m: BuilderModel, ops: Seq<BuilderOp>)
    requires
        m.err is Some,
    ensures
        apply_ops(m, ops) == m,
    decreases ops.len(),
{
    if ops.len() > 0 {
        assert(apply_op(m, ops[0]) == m);
        lemma_sticky_error(m, ops.drop_first());
    }
}

/// A cookie marked original and never staged emits no entry: the emitted
/// entries carry exactly the staged names, so a name absent from the
/// staged intents is absent from the emission.
pub proof fn lemma_unstaged_name_silent(j: JarModel, name: Seq<char>)
    requires
        forall|i: int| 0 <= i < j.staged.len() ==> staged_name(#[trigger] j.staged[i]) != name,
    ensures
        forall|i: int| 0 <= i < delta_model(j).len() ==> (#[trigger] delta_model(j)[i]).name
            != name,
{
    assert forall|i: int| 0 <= i < delta_model(j).len() implies (#[trigger] delta_model(
        j,
    )[i]).name != name by {
        assert(staged_name(j.staged[i]) != name);
    }
}


/// The literal `content-type` is a valid header name.
pub proof fn lemma_content_type_name_valid()
    ensures
        valid_header_name("content-type"@),
{
    reveal_strlit("content-type");
    assert forall|i: int| 0 <= i < "content-type"@.len() implies is_name_char(
        #[trigger] "content-type"@[i],
    ) by {
        let s = "content-type"@;
        assert(s.len() == 12);
        assert(is_name_char(s[0]));
        assert(is_name_char(s[1]));
        assert(is_name_char(s[2]));
        assert(is_name_char(s[3]));
        assert(is_name_char(s[4]));
        assert(is_name_char(s[5]));
        assert(is_name_char(s[6]));
        assert(is_name_char(s[7]));
        assert(is_name_char(s[8]));
        assert(is_name_char(s[9]));
        assert(is_name_char(s[10]));
        assert(is_name_char(s[11]));
    }
}

/// The literal `content-type` is already lower case.
pub proof fn lemma_content_type_lower()
    ensures
        lower_name("content-type"@) == "content-type"@,
{
    reveal_strlit("content-type");
    let s = "content-type"@;
    assert(s.len() == 12);
    assert forall|i: int| 0 <= i < s.len() implies #[trigger] lower_name(s)[i] == s[i] by {
        assert(lower_char(s[0]) == s[0]);
        assert(lower_char(s[1]) == s[1]);
        assert(lower_char(s[2]) == s[2]);
        assert(lower_char(s[3]) == s[3]);
        assert(lower_char(s[4]) == s[4]);
        assert(lower_char(s[5]) == s[5]);
        assert(lower_char(s[6]) == s[6]);
        assert(lower_char(s[7]) == s[7]);
        assert(lower_char(s[8]) == s[8]);
        assert(lower_char(s[9]) == s[9]);
        assert(lower_char(s[10]) == s[10]);
        assert(lower_char(s[11]) == s[11]);
    }
    assert(lower_name(s) =~= s);
}

/// The literal `application/json` may stand in a header value.
pub proof fn lemma_application_json_valid()
    ensures
        valid_header_value("application/json"@),
{
    reveal_strlit("application/json");
    assert forall|i: int| 0 <= i < "application/json"@.len() implies is_value_char(
        #[trigger] "application/json"@[i],
    ) by {
        let s = "application/json"@;
        assert(s.len() == 16);
        assert(is_value_char(s[0]));
        assert(is_value_char(s[1]));
        assert(is_value_char(s[2]));
        assert(is_value_char(s[3]));
        assert(is_value_char(s[4]));
        assert(is_value_char(s[5]));
        assert(is_value_char(s[6]));
        assert(is_value_char(s[7]));
        assert(is_value_char(s[8]));
        assert(is_value_char(s[9]));
        assert(is_value_char(s[10]));
        assert(is_value_char(s[11]));
        assert(is_value_char(s[12]));
        assert(is_value_char(s[13]));
        assert(is_value_char(s[14]));
        assert(is_value_char(s[15]));
    }
}

/// The cookie merge writes only `set-cookie` entries: every other header
/// name, present or absent, reads the same after a successful merge.
pub proof fn lemma_merge_preserves_other_names(
    h: HeadModel,
    count: nat,
    d: Seq<CookieModel>,
    k: Seq<char>,
)
    requires
        k != "set-cookie"@,
    ensures
        match merge_cookies(h, count, d) {
            Ok(hc) => {
                &&& hc.0.headers.contains_key(k) == h.headers.contains_key(k)
                &&& h.headers.contains_key(k) ==> hc.0.headers[k] == h.headers[k]
                &&& hc.0.status == h.status
                &&& hc.0.conn == h.conn
                &&& hc.0.reason == h.reason
                &&& hc.0.no_chunking == h.no_chunking
            },
            Err(_) => true,
        },
    decreases d.len(),
{
    if d.len() > 0 {
        let w = wire_of(d[0]);
        if valid_header_value(w) && count < HEADER_CAP {
            lemma_merge_preserves_other_names(
                HeadModel { headers: hm_append_model(h.headers, "set-cookie"@, w), ..h },
                (count + 1) as nat,
                d.drop_first(),
                k,
            );
        }
    }
}

/// A JSON finish sets `application/json` as the content type only when
/// none was present: starting without a latched fault, the builder the
/// payload is attached to has a content type; it is the caller's own when
/// one was set, and exactly `application/json` otherwise.
pub proof fn lemma_json_content_type(m: BuilderModel)
    requires
        m.err is None,
        m.count < HEADER_CAP,
    ensures
        ({
            let m1 = if m.head.headers.contains_key("content-type"@) {
                m
            } else {
                apply_op(m, BuilderOp::Header("content-type"@, "application/json"@))
            };
            &&& m1.err is None
            &&& m1.head.headers.contains_key("content-type"@)
            &&& m.head.headers.contains_key("content-type"@) ==> m1.head.headers["content-type"@]
                == m.head.headers["content-type"@]
            &&& !m.head.headers.contains_key("content-type"@) ==> m1.head.headers["content-type"@]
                == seq!["application/json"@]
        }),
{
    if !m.head.headers.contains_key("content-type"@) {
        lemma_content_type_name_valid();
        lemma_content_type_lower();
        lemma_application_json_valid();
    }
}


/// Force-close leaves a connection that will not be kept alive; a
/// successful upgrade marks the connection upgraded and stores the given
/// text as the only `upgrade` header.
pub proof fn lemma_connection_intents(m: BuilderModel, v: Seq<char>)
    requires
        m.err is None,
    ensures
        !keep_alive_of(apply_op(m, BuilderOp::ForceClose).head),
        keep_alive_of(apply_op(m, BuilderOp::KeepAlive).head),
        valid_header_value(v) && m.count < HEADER_CAP ==> {
            let m2 = apply_op(m, BuilderOp::Upgrade(v));
            &&& upgrade_of(m2.head)
            &&& m2.err is None
            &&& m2.head.headers["upgrade"@] == seq![v]
        },
{
}


/// Marking a cookie as a baseline (original) cookie stages nothing: by
/// itself it emits no entry.
pub proof fn lemma_mark_original_emits_nothing(j: JarModel, name: Seq<char>)
    ensures
        delta_model(jar_mark_original(j, name)) == delta_model(j),
{
}

/// A cookie staged for addition is emitted in full, at the end of the
/// emission order.
pub proof fn lemma_added_cookie_emitted(j: JarModel, c: CookieModel)
    ensures
        delta_model(jar_add(j, c)).len() > 0,
        delta_model(jar_add(j, c)).last() == c,
{
    let st = jar_add(j, c).staged;
    assert(delta_model(jar_add(j, c))[st.len() - 1] == c);
}

/// Removing a baseline cookie stages exactly its immediate-expiry entry,
/// at the end of the emission order: the value is cleared, only the
/// identity (name, path, domain) is kept, and it expires at once.
pub proof fn lemma_removed_original_emitted(j: JarModel, c: CookieModel)
    requires
        j.originals.contains(c.name),
    ensures
        delta_model(jar_remove(j, c)).len() > 0,
        delta_model(jar_remove(j, c)).last() == removal_model(c),
{
    let st = jar_remove(j, c).staged;
    assert(delta_model(jar_remove(j, c))[st.len() - 1] == removal_model(c));
}

} // verus!

