//! Input-method client model, catalog construction and resolution.
//!
//! Two mutually incompatible D-Bus control protocols exist for the
//! input-method editor: an older flat-list interface (dialect A) and a newer
//! group-based controller interface (dialect B).  Their bulk replies are
//! positional tuples of different shapes; this module normalizes both into
//! one [`InputMethod`] record, builds the startup catalog (usable entries
//! only, duplicate ids dropped, a cosmetic display-name prefix stripped) and
//! resolves the per-tick current id to a display name.
//!
//! The D-Bus round trips themselves are performed by the calling program;
//! every decision made on their results lives here, verified.

use vstd::prelude::*;
use vstd::string::StringExecFns;

use crate::text;

mod error;

pub use error::FcitxError;

verus! {

/// One catalog entry, the common shape both dialects are normalized into.
#[derive(Debug, Clone)]
pub struct InputMethod {
    /// The name displayed on the UI.
    pub display_name: String,
    /// The internal, protocol-stable name; the catalog's lookup key.
    pub name: String,
    /// Language code; informational only.
    pub lang: String,
    /// Whether the method is available to switch to.
    pub loaded: bool,
}

/// Mathematical image of an [`InputMethod`].
pub ghost struct InputMethodView {
    pub display_name: Seq<char>,
    pub name: Seq<char>,
    pub lang: Seq<char>,
    pub loaded: bool,
}

impl View for InputMethod {
    type V = InputMethodView;

    open spec fn view(&self) -> InputMethodView {
        InputMethodView {
            display_name: self.display_name@,
            name: self.name@,
            lang: self.lang@,
            loaded: self.loaded,
        }
    }
}

impl DeepView for InputMethod {
    type V = InputMethodView;

    open spec fn deep_view(&self) -> InputMethodView {
        self.view()
    }
}

/// The cosmetic prefix that dialect peers put in front of plain keyboard
/// layouts, stripped once during catalog construction.
pub open spec fn im_prefix() -> Seq<char> {
    "Keyboard - "@
}

/// Dialect A's wire entry decoded: `(display name, internal name, language,
/// loaded)`, in that order.
pub open spec fn decode_a_spec(e: (Seq<char>, Seq<char>, Seq<char>, bool)) -> InputMethodView {
    InputMethodView { display_name: e.0, name: e.1, lang: e.2, loaded: e.3 }
}

/// Dialect B's wire entry decoded: the internal name comes first and the
/// display name second — the swap of the two leading positions relative to
/// dialect A — with the language in the sixth position and an enabled flag
/// last.
pub open spec fn decode_b_spec(
    e: (Seq<char>, Seq<char>, Seq<char>, Seq<char>, Seq<char>, Seq<char>, bool),
) -> InputMethodView {
    InputMethodView { display_name: e.1, name: e.0, lang: e.5, loaded: e.6 }
}

/// A catalog entry as stored: the display name with one leading
/// [`im_prefix`] removed, every other field unchanged.
pub open spec fn strip_im(v: InputMethodView) -> InputMethodView {
    InputMethodView {
        display_name: text::strip_prefix_spec(v.display_name, im_prefix()),
        name: v.name,
        lang: v.lang,
        loaded: v.loaded,
    }
}

/// Whether the catalog holds an entry whose key is `id`.
pub open spec fn catalog_has(c: Seq<InputMethodView>, id: Seq<char>) -> bool {
    exists|i: int| 0 <= i < c.len() && c[i].name == id
}

/// Index of the first catalog entry whose key is `id`.
pub open spec fn key_index(c: Seq<InputMethodView>, id: Seq<char>) -> int
    decreases c.len(),
{
    if c.len() == 0 {
        0
    } else if c[0].name == id {
        0
    } else {
        1 + key_index(c.drop_first(), id)
    }
}

/// The display name the catalog maps `id` to.
pub open spec fn display_of(c: Seq<InputMethodView>, id: Seq<char>) -> Seq<char> {
    c[key_index(c, id)].display_name
}

/// Decode dialect A's wire entry into the common record.
pub fn decode_dialect_a(e: &(String, String, String, bool)) -> (im: InputMethod)
    ensures
        im@ == decode_a_spec(e.deep_view()),
{
    InputMethod {
        display_name: e.0.clone(),
        name: e.1.clone(),
        lang: e.2.clone(),
        loaded: e.3,
    }
}

/// Decode dialect B's wire entry into the common record.
pub fn decode_dialect_b(
    e: &(String, String, String, String, String, String, bool),
) -> (im: InputMethod)
    ensures
        im@ == decode_b_spec(e.deep_view()),
{
    InputMethod {
        display_name: e.1.clone(),
        name: e.0.clone(),
        lang: e.5.clone(),
        loaded: e.6,
    }
}

/// Strip one leading [`im_prefix`] from the display name.
pub fn strip_display_prefix(im: InputMethod) -> (r: InputMethod)
    ensures
        r@ == strip_im(im@),
{
    InputMethod {
        display_name: text::strip_prefix(im.display_name.as_str(), "Keyboard - "),
        name: im.name,
        lang: im.lang,
        loaded: im.loaded,
    }
}

/// Whether the catalog holds an entry whose key is `id` (executable form).
pub fn catalog_contains_id(catalog: &Vec<InputMethod>, id: &str) -> (r: bool)
    ensures
        r == catalog_has(catalog.deep_view(), id@),
{
    let n = catalog.len();
    let mut i: usize = 0;
    while i < n
        invariant
            n == catalog.len(),
            i <= n,
            forall|j: int| 0 <= j < i ==> catalog.deep_view()[j].name != id@,
        decreases n - i,
    {
        if text::str_eq(catalog[i].name.as_str(), id) {
            proof {
                assert(catalog.deep_view()[i as int].name == id@);
            }
            return true;
        }
        i = i + 1;
    }
    false
}

/// Catalog construction from dialect A's raw list, continued from `acc`:
/// walk the list front to back, keep each loaded entry whose id is not
/// already present, with its display-name prefix stripped.
pub open spec fn catalog_a_rec(
    raw: Seq<(Seq<char>, Seq<char>, Seq<char>, bool)>,
    acc: Seq<InputMethodView>,
) -> Seq<InputMethodView>
    decreases raw.len(),
{
    if raw.len() == 0 {
        acc
    } else {
        let d = decode_a_spec(raw[0]);
        let acc2 = if d.loaded && !catalog_has(acc, d.name) {
            acc.push(strip_im(d))
        } else {
            acc
        };
        catalog_a_rec(raw.drop_first(), acc2)
    }
}

/// The catalog dialect A's raw list yields.
pub open spec fn catalog_a_spec(
    raw: Seq<(Seq<char>, Seq<char>, Seq<char>, bool)>,
) -> Seq<InputMethodView> {
    catalog_a_rec(raw, Seq::empty())
}

/// Catalog construction from dialect B's raw list, continued from `acc`:
/// the usable entries are those whose id belongs to the active group's
/// member list, since dialect B's bulk list carries no meaningful enabled
/// flag.
pub open spec fn catalog_b_rec(
    raw: Seq<(Seq<char>, Seq<char>, Seq<char>, Seq<char>, Seq<char>, Seq<char>, bool)>,
    members: Seq<Seq<char>>,
    acc: Seq<InputMethodView>,
) -> Seq<InputMethodView>
    decreases raw.len(),
{
    if raw.len() == 0 {
        acc
    } else {
        let d = decode_b_spec(raw[0]);
        let acc2 = if members.contains(d.name) && !catalog_has(acc, d.name) {
            acc.push(strip_im(d))
        } else {
            acc
        };
        catalog_b_rec(raw.drop_first(), members, acc2)
    }
}

/// The catalog dialect B's raw list and active-group members yield.
pub open spec fn catalog_b_spec(
    raw: Seq<(Seq<char>, Seq<char>, Seq<char>, Seq<char>, Seq<char>, Seq<char>, bool)>,
    members: Seq<Seq<char>>,
) -> Seq<InputMethodView> {
    catalog_b_rec(raw, members, Seq::empty())
}

/// Build the catalog from dialect A's raw list.
pub fn build_catalog_a(raw: &Vec<(String, String, String, bool)>) -> (c: Vec<InputMethod>)
    ensures
        c.deep_view() == catalog_a_spec(raw.deep_view()),
{
    let n = raw.len();
    let mut c: Vec<InputMethod> = Vec::new();
    let mut i: usize = 0;
    proof {
        assert(raw.deep_view().skip(0) =~= raw.deep_view());
        assert(c.deep_view() =~= Seq::<InputMethodView>::empty());
    }
    while i < n
        invariant
            n == raw.len(),
            i <= n,
            catalog_a_rec(raw.deep_view().skip(i as int), c.deep_view())
                == catalog_a_spec(raw.deep_view()),
        decreases n - i,
    {
        let ghost rv = raw.deep_view();
        let ghost c0 = c.deep_view();
        let d = decode_dialect_a(&raw[i]);
        let ghost dv = d@;
        let keep = d.loaded && !catalog_contains_id(&c, d.name.as_str());
        if keep {
            let stripped = strip_display_prefix(d);
            c.push(stripped);
            proof {
                assert(c.deep_view() =~= c0.push(strip_im(dv)));
            }
        }
        i = i + 1;
        proof {
            assert(rv.skip(i - 1).drop_first() =~= rv.skip(i as int));
            assert(rv.skip(i - 1)[0] == rv[i - 1]);
            assert(dv == decode_a_spec(rv[i - 1]));
            assert(catalog_a_rec(rv.skip(i - 1), c0) == catalog_a_rec(rv.skip(i as int), c.deep_view()));
        }
    }
    proof {
        assert(raw.deep_view().skip(n as int) =~= Seq::empty());
    }
    c
}

/// Build the catalog from dialect B's raw list and the active group's
/// member ids.
pub fn build_catalog_b(
    raw: &Vec<(String, String, String, String, String, String, bool)>,
    members: &Vec<String>,
) -> (c: Vec<InputMethod>)
    ensures
        c.deep_view() == catalog_b_spec(raw.deep_view(), members.deep_view()),
{
    let n = raw.len();
    let mut c: Vec<InputMethod> = Vec::new();
    let mut i: usize = 0;
    proof {
        assert(raw.deep_view().skip(0) =~= raw.deep_view());
        assert(c.deep_view() =~= Seq::<InputMethodView>::empty());
    }
    while i < n
        invariant
            n == raw.len(),
            i <= n,
            catalog_b_rec(raw.deep_view().skip(i as int), members.deep_view(), c.deep_view())
                == catalog_b_spec(raw.deep_view(), members.deep_view()),
        decreases n - i,
    {
        let ghost rv = raw.deep_view();
        let ghost c0 = c.deep_view();
        let d = decode_dialect_b(&raw[i]);
        let ghost dv = d@;
        let keep = text::contains_str(members, d.name.as_str())
            && !catalog_contains_id(&c, d.name.as_str());
        if keep {
            let stripped = strip_display_prefix(d);
            c.push(stripped);
            proof {
                assert(c.deep_view() =~= c0.push(strip_im(dv)));
            }
        }
        i = i + 1;
        proof {
            assert(rv.skip(i - 1).drop_first() =~= rv.skip(i as int));
            assert(rv.skip(i - 1)[0] == rv[i - 1]);
            assert(dv == decode_b_spec(rv[i - 1]));
            assert(catalog_b_rec(rv.skip(i - 1), members.deep_view(), c0)
                == catalog_b_rec(rv.skip(i as int), members.deep_view(), c.deep_view()));
        }
    }
    proof {
        assert(raw.deep_view().skip(n as int) =~= Seq::empty());
    }
    c
}

proof fn lemma_key_index_first(c: Seq<InputMethodView>, id: Seq<char>, i: int)
    requires
        0 <= i < c.len(),
        c[i].name == id,
        forall|k: int| 0 <= k < i ==> c[k].name != id,
    ensures
        key_index(c, id) == i,
    decreases i,
{
    if i > 0 {
        lemma_key_index_first(c.drop_first(), id, i - 1);
    }
}

proof fn lemma_key_index_has(c: Seq<InputMethodView>, id: Seq<char>)
    requires
        catalog_has(c, id),
    ensures
        0 <= key_index(c, id) < c.len(),
        c[key_index(c, id)].name == id,
    decreases c.len(),
{
    if c.len() > 0 && c[0].name != id {
        assert(catalog_has(c.drop_first(), id)) by {
            let w = choose|i: int| 0 <= i < c.len() && c[i].name == id;
            assert(c.drop_first()[w - 1].name == id);
        }
        lemma_key_index_has(c.drop_first(), id);
    }
}

/// Map the current input method's id to its display name in the catalog.
///
/// The empty id means "no active input method" and maps to the empty
/// string; a non-empty id not present in the catalog means the peer and the
/// catalog have drifted apart, a protocol-contract violation.
pub fn resolve(catalog: &Vec<InputMethod>, current_id: &str) -> (r: Result<String, FcitxError>)
    ensures
        current_id@.len() == 0 ==> r is Ok && r->Ok_0@ == Seq::<char>::empty(),
        current_id@.len() > 0 && catalog_has(catalog.deep_view(), current_id@) ==> r is Ok
            && r->Ok_0@ == display_of(catalog.deep_view(), current_id@),
        current_id@.len() > 0 && !catalog_has(catalog.deep_view(), current_id@) ==> r
            == Err::<String, FcitxError>(FcitxError::UnknownInputMethod),
{
    if current_id.unicode_len() == 0 {
        return Ok(String::new());
    }
    let n = catalog.len();
    let mut i: usize = 0;
    while i < n
        invariant
            n == catalog.len(),
            i <= n,
            current_id@.len() > 0,
            forall|k: int| 0 <= k < i ==> catalog.deep_view()[k].name != current_id@,
        decreases n - i,
    {
        if text::str_eq(catalog[i].name.as_str(), current_id) {
            proof {
                assert(catalog.deep_view()[i as int].name == current_id@);
                lemma_key_index_first(catalog.deep_view(), current_id@, i as int);
            }
            return Ok(catalog[i].display_name.clone());
        }
        i = i + 1;
    }
    Err(FcitxError::UnknownInputMethod)
}

/// No two catalog entries share a key.
pub open spec fn keys_unique(c: Seq<InputMethodView>) -> bool {
    forall|i: int, j: int| 0 <= i < j < c.len() ==> c[i].name != c[j].name
}

proof fn lemma_catalog_a_rec_unique(
    raw: Seq<(Seq<char>, Seq<char>, Seq<char>, bool)>,
    acc: Seq<InputMethodView>,
)
    requires
        keys_unique(acc),
    ensures
        keys_unique(catalog_a_rec(raw, acc)),
    decreases raw.len(),
{
    if raw.len() > 0 {
        let d = decode_a_spec(raw[0]);
        if d.loaded && !catalog_has(acc, d.name) {
            let acc2 = acc.push(strip_im(d));
            assert(keys_unique(acc2)) by {
                assert(forall|i: int| 0 <= i < acc.len() ==> acc[i].name != d.name);
            }
            lemma_catalog_a_rec_unique(raw.drop_first(), acc2);
        } else {
            lemma_catalog_a_rec_unique(raw.drop_first(), acc);
        }
    }
}

proof fn lemma_catalog_b_rec_unique(
    raw: Seq<(Seq<char>, Seq<char>, Seq<char>, Seq<char>, Seq<char>, Seq<char>, bool)>,
    members: Seq<Seq<char>>,
    acc: Seq<InputMethodView>,
)
    requires
        keys_unique(acc),
    ensures
        keys_unique(catalog_b_rec(raw, members, acc)),
    decreases raw.len(),
{
    if raw.len() > 0 {
        let d = decode_b_spec(raw[0]);
        if members.contains(d.name) && !catalog_has(acc, d.name) {
            let acc2 = acc.push(strip_im(d));
            assert(keys_unique(acc2)) by {
                assert(forall|i: int| 0 <= i < acc.len() ==> acc[i].name != d.name);
            }
            lemma_catalog_b_rec_unique(raw.drop_first(), members, acc2);
        } else {
            lemma_catalog_b_rec_unique(raw.drop_first(), members, acc);
        }
    }
}

/// A constructed catalog has unique keys, whichever dialect built it.
pub proof fn lemma_catalog_keys_unique(
    raw_a: Seq<(Seq<char>, Seq<char>, Seq<char>, bool)>,
    raw_b: Seq<(Seq<char>, Seq<char>, Seq<char>, Seq<char>, Seq<char>, Seq<char>, bool)>,
    members: Seq<Seq<char>>,
)
    ensures
        keys_unique(catalog_a_spec(raw_a)),
        keys_unique(catalog_b_spec(raw_b, members)),
{
    lemma_catalog_a_rec_unique(raw_a, Seq::empty());
    lemma_catalog_b_rec_unique(raw_b, members, Seq::empty());
}

proof fn lemma_catalog_a_rec_sound(
    raw: Seq<(Seq<char>, Seq<char>, Seq<char>, bool)>,
    acc: Seq<InputMethodView>,
)
    ensures
        acc.len() <= catalog_a_rec(raw, acc).len(),
        forall|k: int| 0 <= k < acc.len() ==> catalog_a_rec(raw, acc)[k] == acc[k],
        forall|k: int|
            #![trigger catalog_a_rec(raw, acc)[k]]
            acc.len() <= k < catalog_a_rec(raw, acc).len() ==> exists|j: int|
                0 <= j < raw.len() && (#[trigger] raw[j]).3 && catalog_a_rec(raw, acc)[k]
                    == strip_im(decode_a_spec(raw[j])),
    decreases raw.len(),
{
    if raw.len() > 0 {
        let d = decode_a_spec(raw[0]);
        let tail = raw.drop_first();
        let res = catalog_a_rec(raw, acc);
        if d.loaded && !catalog_has(acc, d.name) {
            let acc2 = acc.push(strip_im(d));
            lemma_catalog_a_rec_sound(tail, acc2);
            assert(res == catalog_a_rec(tail, acc2));
            assert forall|k: int| 0 <= k < acc.len() implies res[k] == acc[k] by {
                assert(catalog_a_rec(tail, acc2)[k] == acc2[k]);
                assert(acc2[k] == acc[k]);
            }
            assert forall|k: int|
                #![trigger res[k]]
                acc.len() <= k < res.len() implies exists|j: int|
                0 <= j < raw.len() && (#[trigger] raw[j]).3 && res[k] == strip_im(
                    decode_a_spec(raw[j]),
                ) by {
                if k == acc.len() {
                    assert(res[k] == acc2[k]);
                    assert(raw[0].3 && res[k] == strip_im(decode_a_spec(raw[0])));
                } else {
                    assert(catalog_a_rec(tail, acc2)[k] == res[k]);
                    let j0 = choose|j: int|
                        0 <= j < tail.len() && tail[j].3 && res[k] == strip_im(
                            decode_a_spec(tail[j]),
                        );
                    assert(tail[j0] == raw[j0 + 1]);
                    assert(raw[j0 + 1].3 && res[k] == strip_im(decode_a_spec(raw[j0 + 1])));
                }
            }
        } else {
            lemma_catalog_a_rec_sound(tail, acc);
            assert(res == catalog_a_rec(tail, acc));
            assert forall|k: int| 0 <= k < acc.len() implies res[k] == acc[k] by {
                assert(catalog_a_rec(tail, acc)[k] == acc[k]);
            }
            assert forall|k: int|
                #![trigger res[k]]
                acc.len() <= k < res.len() implies exists|j: int|
                0 <= j < raw.len() && (#[trigger] raw[j]).3 && res[k] == strip_im(
                    decode_a_spec(raw[j]),
                ) by {
                assert(catalog_a_rec(tail, acc)[k] == res[k]);
                let j0 = choose|j: int|
                    0 <= j < tail.len() && tail[j].3 && res[k] == strip_im(decode_a_spec(tail[j]));
                assert(tail[j0] == raw[j0 + 1]);
                assert(raw[j0 + 1].3 && res[k] == strip_im(decode_a_spec(raw[j0 + 1])));
            }
        }
    }
}

proof fn lemma_catalog_a_rec_complete(
    raw: Seq<(Seq<char>, Seq<char>, Seq<char>, bool)>,
    acc: Seq<InputMethodView>,
    id: Seq<char>,
)
    requires
        catalog_has(acc, id) || exists|j: int| 0 <= j < raw.len() && raw[j].3 && raw[j].1 == id,
    ensures
        catalog_has(catalog_a_rec(raw, acc), id),
    decreases raw.len(),
{
    if raw.len() > 0 {
        let d = decode_a_spec(raw[0]);
        let tail = raw.drop_first();
        let acc2 = if d.loaded && !catalog_has(acc, d.name) {
            acc.push(strip_im(d))
        } else {
            acc
        };
        if catalog_has(acc, id) {
            let w = choose|i: int| 0 <= i < acc.len() && acc[i].name == id;
            assert(acc2[w].name == id);
            lemma_catalog_a_rec_complete(tail, acc2, id);
        } else {
            let j0 = choose|j: int| 0 <= j < raw.len() && raw[j].3 && raw[j].1 == id;
            if j0 == 0 {
                assert(acc2 == acc.push(strip_im(d)));
                assert(acc2[acc.len() as int].name == id);
                lemma_catalog_a_rec_complete(tail, acc2, id);
            } else {
                assert(tail[j0 - 1] == raw[j0]);
                assert(tail[j0 - 1].3 && tail[j0 - 1].1 == id);
                lemma_catalog_a_rec_complete(tail, acc2, id);
            }
        }
    }
}

/// An id is in the dialect-A catalog exactly when some raw entry carries it
/// with `loaded = true`; entries with `loaded = false` contribute nothing.
pub proof fn lemma_catalog_a_membership(
    raw: Seq<(Seq<char>, Seq<char>, Seq<char>, bool)>,
    id: Seq<char>,
)
    ensures
        catalog_has(catalog_a_spec(raw), id) <==> exists|j: int|
            0 <= j < raw.len() && (#[trigger] raw[j]).3 && raw[j].1 == id,
{
    if catalog_has(catalog_a_spec(raw), id) {
        lemma_key_index_has(catalog_a_spec(raw), id);
        lemma_catalog_a_rec_sound(raw, Seq::empty());
        let k = key_index(catalog_a_spec(raw), id);
        let j0 = choose|j: int|
            0 <= j < raw.len() && raw[j].3 && catalog_a_spec(raw)[k] == strip_im(
                decode_a_spec(raw[j]),
            );
        assert(raw[j0].3 && raw[j0].1 == id);
    }
    if exists|j: int| 0 <= j < raw.len() && (#[trigger] raw[j]).3 && raw[j].1 == id {
        lemma_catalog_a_rec_complete(raw, Seq::empty(), id);
    }
}

/// Every id present in a dialect-A catalog resolves to exactly the stripped
/// display name of a loaded raw entry that carries that id.
pub proof fn lemma_resolve_catalog_a(
    raw: Seq<(Seq<char>, Seq<char>, Seq<char>, bool)>,
    id: Seq<char>,
)
    requires
        catalog_has(catalog_a_spec(raw), id),
    ensures
        exists|j: int|
            0 <= j < raw.len() && (#[trigger] raw[j]).3 && raw[j].1 == id && display_of(
                catalog_a_spec(raw),
                id,
            ) == text::strip_prefix_spec(raw[j].0, im_prefix()),
{
    lemma_key_index_has(catalog_a_spec(raw), id);
    lemma_catalog_a_rec_sound(raw, Seq::empty());
    let k = key_index(catalog_a_spec(raw), id);
    let j0 = choose|j: int|
        0 <= j < raw.len() && raw[j].3 && catalog_a_spec(raw)[k] == strip_im(
            decode_a_spec(raw[j]),
        );
    assert(raw[j0].3 && raw[j0].1 == id && display_of(catalog_a_spec(raw), id)
        == text::strip_prefix_spec(raw[j0].0, im_prefix()));
}

proof fn lemma_catalog_b_rec_sound(
    raw: Seq<(Seq<char>, Seq<char>, Seq<char>, Seq<char>, Seq<char>, Seq<char>, bool)>,
    members: Seq<Seq<char>>,
    acc: Seq<InputMethodView>,
)
    ensures
        acc.len() <= catalog_b_rec(raw, members, acc).len(),
        forall|k: int| 0 <= k < acc.len() ==> catalog_b_rec(raw, members, acc)[k] == acc[k],
        forall|k: int|
            #![trigger catalog_b_rec(raw, members, acc)[k]]
            acc.len() <= k < catalog_b_rec(raw, members, acc).len() ==> exists|j: int|
                0 <= j < raw.len() && members.contains((#[trigger] raw[j]).0)
                    && catalog_b_rec(raw, members, acc)[k] == strip_im(decode_b_spec(raw[j])),
    decreases raw.len(),
{
    if raw.len() > 0 {
        let d = decode_b_spec(raw[0]);
        let tail = raw.drop_first();
        let res = catalog_b_rec(raw, members, acc);
        if members.contains(d.name) && !catalog_has(acc, d.name) {
            let acc2 = acc.push(strip_im(d));
            lemma_catalog_b_rec_sound(tail, members, acc2);
            assert(res == catalog_b_rec(tail, members, acc2));
            assert forall|k: int| 0 <= k < acc.len() implies res[k] == acc[k] by {
                assert(catalog_b_rec(tail, members, acc2)[k] == acc2[k]);
                assert(acc2[k] == acc[k]);
            }
            assert forall|k: int|
                #![trigger res[k]]
                acc.len() <= k < res.len() implies exists|j: int|
                0 <= j < raw.len() && members.contains((#[trigger] raw[j]).0) && res[k]
                    == strip_im(decode_b_spec(raw[j])) by {
                if k == acc.len() {
                    assert(res[k] == acc2[k]);
                    assert(members.contains(raw[0].0) && res[k] == strip_im(
                        decode_b_spec(raw[0]),
                    ));
                } else {
                    assert(catalog_b_rec(tail, members, acc2)[k] == res[k]);
                    let j0 = choose|j: int|
                        0 <= j < tail.len() && members.contains(tail[j].0) && res[k] == strip_im(
                            decode_b_spec(tail[j]),
                        );
                    assert(tail[j0] == raw[j0 + 1]);
                    assert(members.contains(raw[j0 + 1].0) && res[k] == strip_im(
                        decode_b_spec(raw[j0 + 1]),
                    ));
                }
            }
        } else {
            lemma_catalog_b_rec_sound(tail, members, acc);
            assert(res == catalog_b_rec(tail, members, acc));
            assert forall|k: int| 0 <= k < acc.len() implies res[k] == acc[k] by {
                assert(catalog_b_rec(tail, members, acc)[k] == acc[k]);
            }
            assert forall|k: int|
                #![trigger res[k]]
                acc.len() <= k < res.len() implies exists|j: int|
                0 <= j < raw.len() && members.contains((#[trigger] raw[j]).0) && res[k]
                    == strip_im(decode_b_spec(raw[j])) by {
                assert(catalog_b_rec(tail, members, acc)[k] == res[k]);
                let j0 = choose|j: int|
                    0 <= j < tail.len() && members.contains(tail[j].0) && res[k] == strip_im(
                        decode_b_spec(tail[j]),
                    );
                assert(tail[j0] == raw[j0 + 1]);
                assert(members.contains(raw[j0 + 1].0) && res[k] == strip_im(
                    decode_b_spec(raw[j0 + 1]),
                ));
            }
        }
    }
}

proof fn lemma_catalog_b_rec_complete(
    raw: Seq<(Seq<char>, Seq<char>, Seq<char>, Seq<char>, Seq<char>, Seq<char>, bool)>,
    members: Seq<Seq<char>>,
    acc: Seq<InputMethodView>,
    id: Seq<char>,
)
    requires
        catalog_has(acc, id) || (members.contains(id) && exists|j: int|
            0 <= j < raw.len() && raw[j].0 == id),
    ensures
        catalog_has(catalog_b_rec(raw, members, acc), id),
    decreases raw.len(),
{
    if raw.len() > 0 {
        let d = decode_b_spec(raw[0]);
        let tail = raw.drop_first();
        let acc2 = if members.contains(d.name) && !catalog_has(acc, d.name) {
            acc.push(strip_im(d))
        } else {
            acc
        };
        if catalog_has(acc, id) {
            let w = choose|i: int| 0 <= i < acc.len() && acc[i].name == id;
            assert(acc2[w].name == id);
            lemma_catalog_b_rec_complete(tail, members, acc2, id);
        } else {
            let j0 = choose|j: int| 0 <= j < raw.len() && raw[j].0 == id;
            if j0 == 0 {
                assert(acc2 == acc.push(strip_im(d)));
                assert(acc2[acc.len() as int].name == id);
                lemma_catalog_b_rec_complete(tail, members, acc2, id);
            } else {
                assert(tail[j0 - 1] == raw[j0]);
                assert(tail[j0 - 1].0 == id);
                lemma_catalog_b_rec_complete(tail, members, acc2, id);
            }
        }
    }
}

/// An id is in the dialect-B catalog exactly when it belongs to the active
/// group and some raw entry carries it; entries outside the group
/// contribute nothing.
pub proof fn lemma_catalog_b_membership(
    raw: Seq<(Seq<char>, Seq<char>, Seq<char>, Seq<char>, Seq<char>, Seq<char>, bool)>,
    members: Seq<Seq<char>>,
    id: Seq<char>,
)
    ensures
        catalog_has(catalog_b_spec(raw, members), id) <==> (members.contains(id) && exists|j: int|
            0 <= j < raw.len() && (#[trigger] raw[j]).0 == id),
{
    if catalog_has(catalog_b_spec(raw, members), id) {
        lemma_key_index_has(catalog_b_spec(raw, members), id);
        lemma_catalog_b_rec_sound(raw, members, Seq::empty());
        let k = key_index(catalog_b_spec(raw, members), id);
        let j0 = choose|j: int|
            0 <= j < raw.len() && members.contains(raw[j].0) && catalog_b_spec(raw, members)[k]
                == strip_im(decode_b_spec(raw[j]));
        assert(raw[j0].0 == id && members.contains(id));
    }
    if members.contains(id) && exists|j: int| 0 <= j < raw.len() && (#[trigger] raw[j]).0 == id {
        lemma_catalog_b_rec_complete(raw, members, Seq::empty(), id);
    }
}

/// Every id present in a dialect-B catalog resolves to exactly the stripped
/// display name of a raw entry that carries that id inside the active group.
pub proof fn lemma_resolve_catalog_b(
    raw: Seq<(Seq<char>, Seq<char>, Seq<char>, Seq<char>, Seq<char>, Seq<char>, bool)>,
    members: Seq<Seq<char>>,
    id: Seq<char>,
)
    requires
        catalog_has(catalog_b_spec(raw, members), id),
    ensures
        exists|j: int|
            0 <= j < raw.len() && members.contains(id) && (#[trigger] raw[j]).0 == id
                && display_of(catalog_b_spec(raw, members), id) == text::strip_prefix_spec(
                raw[j].1,
                im_prefix(),
            ),
{
    lemma_key_index_has(catalog_b_spec(raw, members), id);
    lemma_catalog_b_rec_sound(raw, members, Seq::empty());
    let k = key_index(catalog_b_spec(raw, members), id);
    let j0 = choose|j: int|
        0 <= j < raw.len() && members.contains(raw[j].0) && catalog_b_spec(raw, members)[k]
            == strip_im(decode_b_spec(raw[j]));
    assert(raw[j0].0 == id && members.contains(id) && display_of(catalog_b_spec(raw, members), id)
        == text::strip_prefix_spec(raw[j0].1, im_prefix()));
}

/// Which of the two protocol dialects the resolver settled on.
#[derive(Debug, Copy, Clone, PartialEq, Eq, Structural)]
pub enum Dialect {
    A,
    B,
}

/// Outcome of probing dialect A: its full raw list, or a transport-level
/// failure (peer absent), or a reply that could not be read.
pub enum DialectAProbe {
    Listed(Vec<(String, String, String, bool)>),
    TransportFailure,
    MalformedReply,
}

/// Outcome of probing dialect B: its full raw list together with the active
/// group's member ids, or a transport-level failure, or an unreadable reply.
pub enum DialectBProbe {
    Listed(Vec<(String, String, String, String, String, String, bool)>, Vec<String>),
    TransportFailure,
    MalformedReply,
}

/// The resolver's startup state machine.
///
/// Probing always starts with dialect A; a transport failure there falls
/// back to dialect B, and a transport failure on B too means no backend
/// exists.  A malformed reply from either peer is fatal at once.  Once
/// `Ready`, the dialect and its catalog are fixed for the process lifetime.
pub enum ResolverState {
    Uninitialized,
    ProbingDialectA,
    ProbingDialectB,
    Ready(Dialect, Vec<InputMethod>),
    FatalError(FcitxError),
}

impl ResolverState {
    /// A fresh resolver that has probed nothing yet.
    pub fn new() -> (s: Self)
        ensures
            s is Uninitialized,
    {
        ResolverState::Uninitialized
    }

    /// The first transition: begin probing dialect A.
    pub fn begin_probe(self) -> (s: Self)
        requires
            self is Uninitialized,
        ensures
            s is ProbingDialectA,
    {
        ResolverState::ProbingDialectA
    }

    /// Consume dialect A's probe outcome: a listed reply settles on dialect
    /// A with the catalog its raw list yields; a transport failure moves on
    /// to dialect B; a malformed reply is fatal.
    pub fn on_dialect_a(self, probe: DialectAProbe) -> (s: Self)
        requires
            self is ProbingDialectA,
        ensures
            match probe {
                DialectAProbe::Listed(raw) => s is Ready && s->Ready_0 == Dialect::A
                    && s->Ready_1.deep_view() == catalog_a_spec(raw.deep_view()),
                DialectAProbe::TransportFailure => s is ProbingDialectB,
                DialectAProbe::MalformedReply => s is FatalError && s->FatalError_0
                    == FcitxError::FailToDeserialize,
            },
    {
        match probe {
            DialectAProbe::Listed(raw) => ResolverState::Ready(
                Dialect::A,
                build_catalog_a(&raw),
            ),
            DialectAProbe::TransportFailure => ResolverState::ProbingDialectB,
            DialectAProbe::MalformedReply => ResolverState::FatalError(
                FcitxError::FailToDeserialize,
            ),
        }
    }

    /// Consume dialect B's probe outcome: a listed reply settles on dialect
    /// B with the catalog its raw list and group members yield; a transport
    /// failure here means neither backend exists; a malformed reply is
    /// fatal.
    pub fn on_dialect_b(self, probe: DialectBProbe) -> (s: Self)
        requires
            self is ProbingDialectB,
        ensures
            match probe {
                DialectBProbe::Listed(raw, members) => s is Ready && s->Ready_0 == Dialect::B
                    && s->Ready_1.deep_view() == catalog_b_spec(
                    raw.deep_view(),
                    members.deep_view(),
                ),
                DialectBProbe::TransportFailure => s is FatalError && s->FatalError_0
                    == FcitxError::NoBackendFound,
                DialectBProbe::MalformedReply => s is FatalError && s->FatalError_0
                    == FcitxError::FailToDeserialize,
            },
    {
        match probe {
            DialectBProbe::Listed(raw, members) => ResolverState::Ready(
                Dialect::B,
                build_catalog_b(&raw, &members),
            ),
            DialectBProbe::TransportFailure => ResolverState::FatalError(
                FcitxError::NoBackendFound,
            ),
            DialectBProbe::MalformedReply => ResolverState::FatalError(
                FcitxError::FailToDeserialize,
            ),
        }
    }
}

} // verus!
