//! Plugin registry: discovered plugin bundles and the user-approval store.
//!
//! - Plugins live in per-plugin bundle directories
//!   (`<install_root>/<plugin-id>/rivulet-plugin.toml` + binary).
//! - Approvals are recorded **per plugin id and capability**, never globally:
//!   the user sees exactly what a plugin requests (default denial) and
//!   grants per capability. Sensitive capabilities (`secrets`, `capture`)
//!   stay denied for WASM regardless of the stored approval — the store keeps
//!   them only so the UI can display the honest "always denied" state.
use vstd::prelude::*;

use crate::assoc::{
    assoc_view, find_key, keys_unique, lemma_assoc_push, lemma_assoc_remove, lemma_assoc_update,
    lemma_assoc_view, lemma_same_keys_same_view,
};
use crate::plugin_manifest::{requested_spec, PluginCapabilities, PluginManifest};
use crate::text::{has_suffix, owned, str_eq};

verus! {

// ── Discovered plugin (scan result) ─────────────────────────────────────────

/// A plugin bundle found in the install directory.
#[derive(Debug, Clone, PartialEq, Eq)]
pub struct DiscoveredPlugin {
    /// Parsed manifest.
    pub manifest: PluginManifest,
    /// Bundle directory (contains `rivulet-plugin.toml`).
    pub bundle_dir: String,
    /// Path to the plugin binary (`plugin.wasm`).
    pub binary_path: String,
}

impl DiscoveredPlugin {
    /// The plugin id.
    pub fn id(&self) -> (r: &str)
        ensures
            r@ == self.manifest.plugin.id@,
    {
        self.manifest.plugin.id.as_str()
    }

    /// The display name.
    pub fn name(&self) -> (r: &str)
        ensures
            r@ == self.manifest.plugin.name@,
    {
        self.manifest.plugin.name.as_str()
    }

    /// The plugin version.
    pub fn version(&self) -> (r: &str)
        ensures
            r@ == self.manifest.plugin.version@,
    {
        self.manifest.plugin.version.as_str()
    }

    /// The requested capabilities.
    pub fn capabilities(&self) -> (r: &PluginCapabilities)
        ensures
            *r == self.manifest.plugin.capabilities,
    {
        &self.manifest.plugin.capabilities
    }
}

/// `dir` joined with the relative `name`, with a `/` between them unless
/// `dir` is empty or already ends with one.
pub open spec fn join_spec(dir: Seq<char>, name: Seq<char>) -> Seq<char> {
    if dir.len() == 0 {
        name
    } else if has_suffix(dir, "/"@) {
        dir + name
    } else {
        dir + "/"@ + name
    }
}

/// `dir` joined with the relative `name`.
pub fn join_name(dir: &str, name: &str) -> (r: String)
    ensures
        r@ == join_spec(dir@, name@),
{
    proof {
        reveal_strlit("/");
    }
    if dir.unicode_len() == 0 {
        return owned(name);
    }
    let mut out = owned(dir);
    if !crate::text::ends_with(dir, "/") {
        out.append("/");
    }
    out.append(name);
    out
}

/// The default install root: `<app-data>/plugins`.
pub fn default_install_root(app_data_dir: &str) -> (r: String)
    ensures
        r@ == join_spec(app_data_dir@, "plugins"@),
{
    join_name(app_data_dir, "plugins")
}

// ── Scanning an install root ────────────────────────────────────────────────

/// What a scan saw in one directory under the install root.
#[derive(Debug)]
pub struct BundleProbe {
    /// The directory, in the form it is shown to the user.
    pub dir: String,
    /// The parsed `rivulet-plugin.toml`, or why it does not parse; `None`
    /// when the directory holds no readable manifest (not a bundle).
    pub manifest: Option<Result<PluginManifest, String>>,
    /// Whether the directory holds `plugin.wasm`.
    pub binary_exists: bool,
}

/// Lexicographic order of texts by character code (`str`'s `<`).
pub open spec fn text_lt(a: Seq<char>, b: Seq<char>) -> bool
    decreases a.len(),
{
    if a.len() == 0 {
        b.len() > 0
    } else if b.len() == 0 {
        false
    } else if a[0] != b[0] {
        (a[0] as u32) < (b[0] as u32)
    } else {
        text_lt(a.drop_first(), b.drop_first())
    }
}

/// No text is before itself.
pub proof fn lemma_text_lt_irreflexive(a: Seq<char>)
    ensures
        !text_lt(a, a),
    decreases a.len(),
{
    if a.len() > 0 {
        lemma_text_lt_irreflexive(a.drop_first());
    }
}

/// The text order is transitive.
pub proof fn lemma_text_lt_transitive(a: Seq<char>, b: Seq<char>, c: Seq<char>)
    requires
        text_lt(a, b),
        text_lt(b, c),
    ensures
        text_lt(a, c),
    decreases a.len(),
{
    if a.len() > 0 && b.len() > 0 && c.len() > 0 && a[0] == b[0] && b[0] == c[0] {
        lemma_text_lt_transitive(a.drop_first(), b.drop_first(), c.drop_first());
    }
}

proof fn lemma_char_codes_differ(c: char, d: char)
    requires
        c != d,
    ensures
        (c as u32) != (d as u32),
{
    assert(c as int <= 0x10FFFF);
    assert(d as int <= 0x10FFFF);
}

/// Of two different texts, one comes before the other.
pub proof fn lemma_text_lt_total(a: Seq<char>, b: Seq<char>)
    requires
        a != b,
    ensures
        text_lt(a, b) || text_lt(b, a),
    decreases a.len(),
{
    if a.len() == 0 && b.len() == 0 {
        assert(a =~= b);
    } else if a.len() > 0 && b.len() > 0 {
        if a[0] == b[0] {
            if a.drop_first() =~= b.drop_first() {
                assert forall|k: int| 0 <= k < a.len() implies a[k] == b[k] by {
                    if k > 0 {
                        assert(a[k] == a.drop_first()[k - 1]);
                        assert(b[k] == b.drop_first()[k - 1]);
                    }
                }
                assert(a =~= b);
            }
            lemma_text_lt_total(a.drop_first(), b.drop_first());
        } else {
            lemma_char_codes_differ(a[0], b[0]);
        }
    }
}

/// Whether `a` comes before `b` in text order.
pub fn text_less(a: &str, b: &str) -> (r: bool)
    ensures
        r == text_lt(a@, b@),
{
    let n = a.unicode_len();
    let m = b.unicode_len();
    let mut i: usize = 0;
    assert(a@.skip(0) =~= a@ && b@.skip(0) =~= b@);
    while i < n && i < m
        invariant
            n == a@.len(),
            m == b@.len(),
            i <= n,
            i <= m,
            text_lt(a@, b@) == text_lt(a@.skip(i as int), b@.skip(i as int)),
        decreases n - i,
    {
        let ca = a.get_char(i);
        let cb = b.get_char(i);
        assert(a@.skip(i as int)[0] == ca && b@.skip(i as int)[0] == cb);
        if ca != cb {
            return (ca as u32) < (cb as u32);
        }
        assert(a@.skip(i as int).drop_first() =~= a@.skip(i + 1));
        assert(b@.skip(i as int).drop_first() =~= b@.skip(i + 1));
        i = i + 1;
    }
    i == n && i < m
}

/// The plugin id of a discovered bundle.
pub open spec fn plugin_id(d: DiscoveredPlugin) -> Seq<char> {
    d.manifest.plugin.id@
}

/// Whether bundles are in ascending id order.
pub open spec fn sorted_by_id(s: Seq<DiscoveredPlugin>) -> bool {
    forall|i: int, j: int| 0 <= i < j < s.len() ==> !text_lt(plugin_id(#[trigger] s[j]), plugin_id(#[trigger] s[i]))
}

/// Position of the first bundle at or after `k` whose id sorts after `id`
/// (the length when there is none).
pub open spec fn first_id_above(s: Seq<(PluginManifest, Seq<char>, Seq<char>)>, id: Seq<char>, k: int) -> int
    decreases s.len() - k,
{
    if k >= s.len() {
        s.len() as int
    } else if text_lt(id, s[k].0.plugin.id@) {
        k
    } else {
        first_id_above(s, id, k + 1)
    }
}

/// The bundles in ascending id order, bundles with equal ids in their
/// original order: each bundle goes in after every earlier bundle whose id
/// does not sort after its own.
pub open spec fn id_stable_sorted(s: Seq<(PluginManifest, Seq<char>, Seq<char>)>) -> Seq<(PluginManifest, Seq<char>, Seq<char>)>
    decreases s.len(),
{
    if s.len() == 0 {
        s
    } else {
        let r = id_stable_sorted(s.drop_last());
        r.insert(first_id_above(r, s.last().0.plugin.id@, 0), s.last())
    }
}

/// A discovered bundle in mathematical form: manifest, directory, binary.
pub open spec fn discovered_view(d: DiscoveredPlugin) -> (PluginManifest, Seq<char>, Seq<char>) {
    (d.manifest, d.bundle_dir@, d.binary_path@)
}

/// The bundle a probe shows, if it shows a usable one.
pub open spec fn found_in(p: BundleProbe) -> Seq<(PluginManifest, Seq<char>, Seq<char>)> {
    match p.manifest {
        Some(Ok(m)) => if p.binary_exists {
            seq![(m, p.dir@, join_spec(p.dir@, "plugin.wasm"@))]
        } else {
            Seq::empty()
        },
        _ => Seq::empty(),
    }
}

/// The report of a broken bundle, if the probe shows one: a manifest
/// without binary, or a manifest that does not parse.
pub open spec fn broken_in(p: BundleProbe) -> Seq<Seq<char>> {
    match p.manifest {
        Some(Ok(m)) => if p.binary_exists {
            Seq::empty()
        } else {
            seq![m.plugin.id@ + ": plugin.wasm missing"@]
        },
        Some(Err(e)) => seq![p.dir@ + ": "@ + e@],
        None => Seq::empty(),
    }
}

/// The usable bundles among probes, in probe order.
pub open spec fn found_all(ps: Seq<BundleProbe>) -> Seq<(PluginManifest, Seq<char>, Seq<char>)>
    decreases ps.len(),
{
    if ps.len() == 0 {
        Seq::empty()
    } else {
        found_all(ps.drop_last()) + found_in(ps.last())
    }
}

/// The broken-bundle reports among probes, in probe order.
pub open spec fn broken_all(ps: Seq<BundleProbe>) -> Seq<Seq<char>>
    decreases ps.len(),
{
    if ps.len() == 0 {
        Seq::empty()
    } else {
        broken_all(ps.drop_last()) + broken_in(ps.last())
    }
}

/// Inserting a bundle before the first one with a larger id keeps the
/// order.
proof fn lemma_insert_keeps_sorted(s: Seq<DiscoveredPlugin>, j: int, d: DiscoveredPlugin)
    requires
        sorted_by_id(s),
        0 <= j <= s.len(),
        forall|k: int| 0 <= k < j ==> !text_lt(plugin_id(d), plugin_id(#[trigger] s[k])),
        j < s.len() ==> text_lt(plugin_id(d), plugin_id(s[j])),
    ensures
        sorted_by_id(s.insert(j, d)),
{
    let t = s.insert(j, d);
    assert forall|x: int, y: int| 0 <= x < y < t.len() implies !text_lt(plugin_id(#[trigger] t[y]), plugin_id(#[trigger] t[x])) by {
        if y < j {
            assert(t[x] == s[x] && t[y] == s[y]);
        } else if y == j {
            assert(t[x] == s[x] && t[y] == d);
        } else if x < j {
            assert(t[x] == s[x] && t[y] == s[y - 1]);
        } else if x == j {
            assert(t[x] == d && t[y] == s[y - 1]);
            if text_lt(plugin_id(s[y - 1]), plugin_id(d)) {
                lemma_text_lt_transitive(plugin_id(s[y - 1]), plugin_id(d), plugin_id(s[j]));
                if y - 1 == j {
                    lemma_text_lt_irreflexive(plugin_id(s[j]));
                } else {
                    assert(!text_lt(plugin_id(s[y - 1]), plugin_id(s[j])));
                }
            }
        } else {
            assert(t[x] == s[x - 1] && t[y] == s[y - 1]);
        }
    }
}

/// Sort what a scan of the install root saw: the usable bundles in
/// ascending id order (a bundle counts when its manifest parses and its
/// binary exists), and one report per broken bundle in scan order.
/// Directories without a readable manifest are not bundles and are
/// skipped silently.
pub fn collect_bundles(probes: Vec<BundleProbe>) -> (r: (Vec<DiscoveredPlugin>, Vec<String>))
    ensures
        r.0@.map_values(|d: DiscoveredPlugin| discovered_view(d)) == id_stable_sorted(found_all(probes@)),
        sorted_by_id(r.0@),
        r.0@.map_values(|d: DiscoveredPlugin| discovered_view(d)).to_multiset() == found_all(probes@).to_multiset(),
        r.1@.map_values(|s: String| s@) == broken_all(probes@),
{
    broadcast use vstd::seq_lib::to_multiset_insert;

    let ghost all = probes@;
    let mut rest = probes;
    let mut found: Vec<DiscoveredPlugin> = Vec::new();
    let mut broken: Vec<String> = Vec::new();
    let n = rest.len();
    let mut k: usize = 0;
    assert(found@.map_values(|d: DiscoveredPlugin| discovered_view(d)) =~= found_all(all.subrange(0, 0)));
    assert(broken@.map_values(|s: String| s@) =~= broken_all(all.subrange(0, 0)));
    while k < n
        invariant
            n == all.len(),
            k <= n,
            rest@ == all.subrange(k as int, n as int),
            sorted_by_id(found@),
            found@.map_values(|d: DiscoveredPlugin| discovered_view(d)) == id_stable_sorted(found_all(all.subrange(0, k as int))),
            found@.map_values(|d: DiscoveredPlugin| discovered_view(d)).to_multiset()
                == found_all(all.subrange(0, k as int)).to_multiset(),
            broken@.map_values(|s: String| s@) == broken_all(all.subrange(0, k as int)),
        decreases n - k,
    {
        let probe = rest.remove(0);
        let ghost done = all.subrange(0, k + 1);
        proof {
            assert(probe == all[k as int]);
            assert(rest@ =~= all.subrange(k + 1, n as int));
            assert(done.drop_last() =~= all.subrange(0, k as int));
            assert(done.last() == probe);
        }
        let ghost found_before = found@;
        let ghost broken_before = broken@;
        let BundleProbe { dir, manifest, binary_exists } = probe;
        match manifest {
            Some(Ok(m)) => {
                if binary_exists {
                    let binary_path = join_name(dir.as_str(), "plugin.wasm");
                    let d = DiscoveredPlugin { manifest: m, bundle_dir: dir, binary_path };
                    let mut j: usize = 0;
                    while j < found.len() && !text_less(d.manifest.plugin.id.as_str(), found[j].manifest.plugin.id.as_str())
                        invariant
                            j <= found@.len(),
                            found@ == found_before,
                            forall|x: int| 0 <= x < j ==> !text_lt(plugin_id(d), plugin_id(#[trigger] found@[x])),
                            first_id_above(found_before.map_values(|d: DiscoveredPlugin| discovered_view(d)), plugin_id(d), j as int)
                                == first_id_above(found_before.map_values(|d: DiscoveredPlugin| discovered_view(d)), plugin_id(d), 0),
                        decreases found@.len() - j,
                    {
                        proof {
                            assert(found_before.map_values(|d: DiscoveredPlugin| discovered_view(d))[j as int].0.plugin.id@ == plugin_id(found@[j as int]));
                        }
                        j = j + 1;
                    }
                    proof {
                        if j < found@.len() {
                            assert(found_before.map_values(|d: DiscoveredPlugin| discovered_view(d))[j as int].0.plugin.id@ == plugin_id(found@[j as int]));
                        }
                        assert(first_id_above(found_before.map_values(|d: DiscoveredPlugin| discovered_view(d)), plugin_id(d), j as int) == j as int);
                    }
                    proof {
                        lemma_insert_keeps_sorted(found@, j as int, d);
                    }
                    let ghost dv = discovered_view(d);
                    found.insert(j, d);
                    proof {
                        assert(found@.map_values(|d: DiscoveredPlugin| discovered_view(d)) =~= found_before.map_values(
                            |d: DiscoveredPlugin| discovered_view(d),
                        ).insert(j as int, dv));
                        assert(found_in(all[k as int]) =~= seq![dv]);
                        assert(found_all(done) =~= found_all(all.subrange(0, k as int)).push(dv));
                        assert(found_all(done).drop_last() =~= found_all(all.subrange(0, k as int)));
                        assert(dv.0.plugin.id@ == plugin_id(d));
                        vstd::seq_lib::to_multiset_build(found_all(all.subrange(0, k as int)), dv);
                        vstd::seq_lib::to_multiset_insert(
                            found_before.map_values(|d: DiscoveredPlugin| discovered_view(d)),
                            j as int,
                            dv,
                        );
                        assert(broken_in(all[k as int]) =~= Seq::<Seq<char>>::empty());
                        assert(broken_all(done) =~= broken_all(all.subrange(0, k as int)));
                    }
                } else {
                    let mut line = owned(m.plugin.id.as_str());
                    line.append(": plugin.wasm missing");
                    broken.push(line);
                    proof {
                        assert(found_in(all[k as int]) =~= Seq::<(PluginManifest, Seq<char>, Seq<char>)>::empty());
                        assert(found_all(done) =~= found_all(all.subrange(0, k as int)));
                        assert(broken@.map_values(|s: String| s@) =~= broken_before.map_values(|s: String| s@).push(
                            m.plugin.id@ + ": plugin.wasm missing"@,
                        ));
                    }
                }
            },
            Some(Err(e)) => {
                let mut line = owned(dir.as_str());
                line.append(": ");
                line.append(e.as_str());
                broken.push(line);
                proof {
                    assert(found_in(all[k as int]) =~= Seq::<(PluginManifest, Seq<char>, Seq<char>)>::empty());
                    assert(found_all(done) =~= found_all(all.subrange(0, k as int)));
                    assert(broken@.map_values(|s: String| s@) =~= broken_before.map_values(|s: String| s@).push(
                        dir@ + ": "@ + e@,
                    ));
                }
            },
            None => {
                proof {
                    assert(found_in(all[k as int]) =~= Seq::<(PluginManifest, Seq<char>, Seq<char>)>::empty());
                    assert(found_all(done) =~= found_all(all.subrange(0, k as int)));
                    assert(broken_all(done) =~= broken_all(all.subrange(0, k as int)));
                    assert(broken@.map_values(|s: String| s@) =~= broken_before.map_values(|s: String| s@));
                }
            },
        }
        k = k + 1;
    }
    proof {
        assert(all.subrange(0, n as int) =~= all);
    }
    (found, broken)
}

// ── Approval records ────────────────────────────────────────────────────────

/// The approval state of one capability of one plugin.
#[derive(Debug, Clone, Copy, PartialEq, Eq, Structural)]
pub enum CapabilityDecision {
    /// The user granted this capability.
    Approved,
    /// The user explicitly denied this capability.
    Denied,
}

impl Default for CapabilityDecision {
    fn default() -> (r: Self)
        ensures
            r == CapabilityDecision::Denied,
    {
        CapabilityDecision::Denied
    }
}

/// A plugin record in mathematical form.
pub struct RecordView {
    /// Capability name → decision.
    pub decisions: Map<Seq<char>, CapabilityDecision>,
    /// Whether the plugin is enabled.
    pub enabled: bool,
}

/// The record of a plugin the user has not decided anything about.
pub open spec fn empty_record() -> RecordView {
    RecordView { decisions: Map::empty(), enabled: false }
}

/// A single plugin's user decisions.
#[derive(Debug, PartialEq, Eq)]
pub struct PluginRecord {
    capabilities: Vec<(String, CapabilityDecision)>,
    enabled: bool,
}

impl View for PluginRecord {
    type V = RecordView;

    closed spec fn view(&self) -> RecordView {
        RecordView { decisions: assoc_view(self.capabilities@), enabled: self.enabled }
    }
}

impl Clone for PluginRecord {
    fn clone(&self) -> (r: Self)
        ensures
            r@ == self@,
    {
        proof {
            use_type_invariant(self);
        }
        let mut caps: Vec<(String, CapabilityDecision)> = Vec::new();
        let n = self.capabilities.len();
        let mut i: usize = 0;
        while i < n
            invariant
                n == self.capabilities@.len(),
                i <= n,
                caps@ == self.capabilities@.subrange(0, i as int),
            decreases n - i,
        {
            let key = self.capabilities[i].0.clone();
            caps.push((key, self.capabilities[i].1));
            proof {
                assert(caps@ =~= self.capabilities@.subrange(0, i + 1));
            }
            i = i + 1;
        }
        proof {
            assert(caps@ =~= self.capabilities@);
        }
        PluginRecord { capabilities: caps, enabled: self.enabled }
    }
}

impl Default for PluginRecord {
    fn default() -> (r: Self)
        ensures
            r@ == empty_record(),
    {
        let r = PluginRecord { capabilities: Vec::new(), enabled: false };
        proof {
            assert(r@.decisions =~= Map::<Seq<char>, CapabilityDecision>::empty());
        }
        r
    }
}

impl PluginRecord {
    #[verifier::type_invariant]
    spec fn unique_capabilities(self) -> bool {
        keys_unique(self.capabilities@)
    }

    /// The user's decision on `capability`, if one was recorded.
    pub fn decision(&self, capability: &str) -> (r: Option<CapabilityDecision>)
        ensures
            r == self@.decisions.get(capability@),
    {
        proof {
            use_type_invariant(self);
            lemma_assoc_view(self.capabilities@);
        }
        match find_key(&self.capabilities, capability) {
            Some(i) => Some(self.capabilities[i].1),
            None => None,
        }
    }

    /// Whether the plugin is enabled (only honored when every requested
    /// capability has an explicit decision).
    pub fn enabled(&self) -> (r: bool)
        ensures
            r == self@.enabled,
    {
        self.enabled
    }

    /// Record `decision` for `capability`, replacing an earlier one.
    pub fn decide(&mut self, capability: &str, decision: CapabilityDecision)
        ensures
            final(self)@ == (RecordView { decisions: old(self)@.decisions.insert(capability@, decision), ..old(self)@ }),
    {
        proof {
            use_type_invariant(&*self);
            lemma_assoc_view(self.capabilities@);
        }
        match find_key(&self.capabilities, capability) {
            Some(i) => {
                proof {
                    lemma_assoc_update(self.capabilities@, i as int, decision);
                }
                let key = self.capabilities[i].0.clone();
                proof {
                    assert(key@ == self.capabilities@[i as int].0@);
                }
                let ghost before = self.capabilities@;
                let mut caps: Vec<(String, CapabilityDecision)> = Vec::new();
                std::mem::swap(&mut caps, &mut self.capabilities);
                caps.set(i, (key, decision));
                proof {
                    let a = before.update(i as int, (key, decision));
                    let b = before.update(i as int, (before[i as int].0, decision));
                    assert(caps@ =~= a);
                    lemma_same_keys_same_view(a, b);
                }
                self.capabilities = caps;
            },
            None => {
                let key = owned(capability);
                proof {
                    lemma_assoc_push(self.capabilities@, key, decision);
                }
                let mut caps: Vec<(String, CapabilityDecision)> = Vec::new();
                std::mem::swap(&mut caps, &mut self.capabilities);
                caps.push((key, decision));
                self.capabilities = caps;
            },
        }
    }

    /// Set the enabled flag.
    pub fn set_enabled(&mut self, enabled: bool)
        ensures
            final(self)@ == (RecordView { enabled, ..old(self)@ }),
    {
        proof {
            use_type_invariant(&*self);
        }
        self.enabled = enabled;
    }

    /// Every recorded decision, one pair per capability.
    pub fn decisions(&self) -> (r: Vec<(String, CapabilityDecision)>)
        ensures
            keys_unique(r@),
            assoc_view(r@) == self@.decisions,
    {
        proof {
            use_type_invariant(self);
        }
        let mut out: Vec<(String, CapabilityDecision)> = Vec::new();
        let n = self.capabilities.len();
        let mut i: usize = 0;
        while i < n
            invariant
                n == self.capabilities@.len(),
                i <= n,
                out@.len() == i,
                forall|k: int| 0 <= k < i ==> (#[trigger] out@[k]).0@ == self.capabilities@[k].0@
                    && out@[k].1 == self.capabilities@[k].1,
            decreases n - i,
        {
            out.push((owned(self.capabilities[i].0.as_str()), self.capabilities[i].1));
            i = i + 1;
        }
        proof {
            lemma_same_keys_same_view(out@, self.capabilities@);
            assert forall|a: int, b: int| 0 <= a < b < out@.len() implies (#[trigger] out@[a]).0@ != (#[trigger] out@[b]).0@ by {
                assert(self.capabilities@[a].0@ != self.capabilities@[b].0@);
            }
        }
        out
    }
}


// ── Approval store ──────────────────────────────────────────────────────────

/// The pairs of a store with each record in mathematical form.
pub open spec fn records_view(s: Seq<(String, PluginRecord)>) -> Seq<(String, RecordView)> {
    s.map_values(|p: (String, PluginRecord)| (p.0, p.1@))
}

/// The record of `id` in `v`, or an empty record.
pub open spec fn record_or_empty(v: Map<Seq<char>, RecordView>, id: Seq<char>) -> RecordView {
    if v.contains_key(id) { v[id] } else { empty_record() }
}

/// `v` with `decision` recorded for `capability` of plugin `id`.
pub open spec fn decide_spec(
    v: Map<Seq<char>, RecordView>,
    id: Seq<char>,
    capability: Seq<char>,
    decision: CapabilityDecision,
) -> Map<Seq<char>, RecordView> {
    let r = record_or_empty(v, id);
    v.insert(id, RecordView { decisions: r.decisions.insert(capability, decision), ..r })
}

/// `v` with plugin `id` enabled or disabled.
pub open spec fn enable_spec(v: Map<Seq<char>, RecordView>, id: Seq<char>, enabled: bool) -> Map<Seq<char>, RecordView> {
    let r = record_or_empty(v, id);
    v.insert(id, RecordView { enabled, ..r })
}

/// Whether `capability` is granted to plugin `id` at run time: the manifest
/// requests it, the user approved it for this very plugin, and it is not a
/// sensitive capability (`secrets`, `capture`) asked for by WASM code.
pub open spec fn grant_spec(
    v: Map<Seq<char>, RecordView>,
    id: Seq<char>,
    caps: PluginCapabilities,
    capability: Seq<char>,
    is_wasm: bool,
) -> bool {
    &&& requested_spec(caps).contains(capability)
    &&& v.contains_key(id)
    &&& v[id].decisions.get(capability) == Some(CapabilityDecision::Approved)
    &&& !(is_wasm && (capability == "secrets"@ || capability == "capture"@))
}

/// Whether every capability the plugin requests has a recorded decision
/// (and it requests at least one).
pub open spec fn decided_spec(v: Map<Seq<char>, RecordView>, id: Seq<char>, caps: PluginCapabilities) -> bool {
    let req = requested_spec(caps);
    req.len() > 0 && forall|i: int| 0 <= i < req.len() ==> v.contains_key(id) && v[id].decisions.contains_key(#[trigger] req[i])
}

/// The persisted approval store: plugin id → record.
#[derive(Debug, Clone, PartialEq, Eq)]
pub struct PluginApprovals {
    plugins: Vec<(String, PluginRecord)>,
}

impl View for PluginApprovals {
    type V = Map<Seq<char>, RecordView>;

    closed spec fn view(&self) -> Map<Seq<char>, RecordView> {
        assoc_view(records_view(self.plugins@))
    }
}

proof fn lemma_records_unique(s: Seq<(String, PluginRecord)>)
    ensures
        keys_unique(s) == keys_unique(records_view(s)),
        records_view(s).len() == s.len(),
{
    let t = records_view(s);
    assert(t.len() == s.len());
    if keys_unique(s) {
        assert forall|i: int, j: int| 0 <= i < j < t.len() implies (#[trigger] t[i]).0@ != (#[trigger] t[j]).0@ by {
            assert(s[i].0@ != s[j].0@);
        }
    }
    if keys_unique(t) {
        assert forall|i: int, j: int| 0 <= i < j < s.len() implies (#[trigger] s[i]).0@ != (#[trigger] s[j]).0@ by {
            assert(t[i].0@ != t[j].0@);
        }
    }
}

impl Default for PluginApprovals {
    fn default() -> (r: Self)
        ensures
            r.wf(),
            r@ == Map::<Seq<char>, RecordView>::empty(),
    {
        let r = PluginApprovals { plugins: Vec::new() };
        proof {
            assert(records_view(r.plugins@) =~= Seq::<(String, RecordView)>::empty());
            assert(r@ =~= Map::<Seq<char>, RecordView>::empty());
        }
        r
    }
}

/// Texts in strictly ascending order.
spec fn ascending(s: Seq<String>) -> bool {
    forall|a: int, b: int| 0 <= a < b < s.len() ==> text_lt((#[trigger] s[a])@, (#[trigger] s[b])@)
}

/// Every text is the key of one of the first `i` records.
spec fn drawn_from(s: Seq<String>, t: Seq<(String, RecordView)>, i: int) -> bool {
    forall|k: int| 0 <= k < s.len() ==> exists|m: int| 0 <= m < i && (#[trigger] t[m]).0@ == (#[trigger] s[k])@
}

/// The key of each of the first `i` records is among the texts.
spec fn covers(s: Seq<String>, t: Seq<(String, RecordView)>, i: int) -> bool {
    forall|m: int| 0 <= m < i ==> exists|k: int| 0 <= k < s.len() && (#[trigger] s[k])@ == (#[trigger] t[m]).0@
}

proof fn lemma_insert_ascending(before: Seq<String>, j: int, id: String)
    requires
        0 <= j <= before.len(),
        ascending(before),
        forall|x: int| 0 <= x < j ==> text_lt((#[trigger] before[x])@, id@),
        forall|x: int| j <= x < before.len() ==> text_lt(id@, (#[trigger] before[x])@),
    ensures
        ascending(before.insert(j, id)),
{
    let after = before.insert(j, id);
    assert forall|a: int, b: int| 0 <= a < b < after.len() implies text_lt((#[trigger] after[a])@, (#[trigger] after[b])@) by {
        if b < j {
            assert(after[a] == before[a] && after[b] == before[b]);
        } else if b == j {
            assert(after[a] == before[a]);
        } else if a < j {
            assert(after[a] == before[a] && after[b] == before[b - 1]);
            lemma_text_lt_transitive(before[a]@, id@, before[b - 1]@);
        } else if a == j {
            assert(after[b] == before[b - 1]);
        } else {
            assert(after[a] == before[a - 1] && after[b] == before[b - 1]);
        }
    }
}

proof fn lemma_insert_drawn(t: Seq<(String, RecordView)>, i: int, before: Seq<String>, j: int, id: String)
    requires
        0 <= i < t.len(),
        t[i].0@ == id@,
        0 <= j <= before.len(),
        drawn_from(before, t, i),
        covers(before, t, i),
    ensures
        drawn_from(before.insert(j, id), t, i + 1),
        covers(before.insert(j, id), t, i + 1),
{
    let after = before.insert(j, id);
    assert forall|k: int| 0 <= k < after.len() implies exists|m: int| 0 <= m < i + 1 && (#[trigger] t[m]).0@ == (#[trigger] after[k])@ by {
        if k < j {
            assert(after[k] == before[k]);
        } else if k == j {
            assert(t[i].0@ == after[k]@);
        } else {
            assert(after[k] == before[k - 1]);
        }
    }
    assert forall|m: int| 0 <= m < i + 1 implies exists|k: int| 0 <= k < after.len() && (#[trigger] after[k])@ == (#[trigger] t[m]).0@ by {
        if m == i {
            assert(after[j]@ == t[m].0@);
        } else {
            let k = choose|k: int| 0 <= k < before.len() && (#[trigger] before[k])@ == t[m].0@;
            if k < j {
                assert(after[k] == before[k]);
            } else {
                assert(after[k + 1] == before[k]);
            }
        }
    }
}

/// Inserting the next record's key where the scan stopped keeps the keys
/// ascending and accounts for that record.
proof fn lemma_insert_id(t: Seq<(String, RecordView)>, i: int, before: Seq<String>, j: int, id: String)
    requires
        keys_unique(t),
        0 <= i < t.len(),
        t[i].0@ == id@,
        0 <= j <= before.len(),
        ascending(before),
        drawn_from(before, t, i),
        covers(before, t, i),
        forall|x: int| 0 <= x < j ==> text_lt((#[trigger] before[x])@, id@),
        j < before.len() ==> !text_lt(before[j]@, id@),
    ensures
        ascending(before.insert(j, id)),
        drawn_from(before.insert(j, id), t, i + 1),
        covers(before.insert(j, id), t, i + 1),
{
    if j < before.len() {
        let m = choose|m: int| 0 <= m < i && (#[trigger] t[m]).0@ == before[j]@;
        assert(t[m].0@ != t[i].0@);
        lemma_text_lt_total(before[j]@, id@);
        assert forall|k: int| j <= k < before.len() implies text_lt(id@, (#[trigger] before[k])@) by {
            if k > j {
                lemma_text_lt_transitive(id@, before[j]@, before[k]@);
            }
        }
    }
    lemma_insert_ascending(before, j, id);
    lemma_insert_drawn(t, i, before, j, id);
}

impl PluginApprovals {
    /// No plugin id occurs twice.
    pub closed spec fn wf(&self) -> bool {
        keys_unique(self.plugins@)
    }

    /// Position of the record of `plugin_id`, created empty when missing.
    fn ensure_record(&mut self, plugin_id: &str) -> (i: usize)
        requires
            old(self).wf(),
        ensures
            final(self).wf(),
            i < final(self).plugins@.len(),
            final(self).plugins@[i as int].0@ == plugin_id@,
            final(self).plugins@[i as int].1@ == record_or_empty(old(self)@, plugin_id@),
            final(self)@ == old(self)@.insert(plugin_id@, record_or_empty(old(self)@, plugin_id@)),
    {
        proof {
            lemma_records_unique(self.plugins@);
            lemma_assoc_view(records_view(self.plugins@));
        }
        match find_key(&self.plugins, plugin_id) {
            Some(i) => {
                proof {
                    let t = records_view(self.plugins@);
                    assert(t[i as int].0@ == plugin_id@);
                    assert(self@.contains_key(plugin_id@));
                    assert(self@.insert(plugin_id@, self@[plugin_id@]) =~= self@);
                }
                i
            },
            None => {
                let ghost before = self.plugins@;
                proof {
                    let t = records_view(before);
                    if self@.contains_key(plugin_id@) {
                        let j = choose|j: int| 0 <= j < t.len() && (#[trigger] t[j]).0@ == plugin_id@;
                        assert(before[j].0@ == plugin_id@);
                    }
                }
                let key = owned(plugin_id);
                let rec = PluginRecord::default();
                self.plugins.push((key, rec));
                proof {
                    assert(records_view(self.plugins@) =~= records_view(before).push((key, rec@)));
                    lemma_assoc_push(records_view(before), key, rec@);
                    lemma_records_unique(self.plugins@);
                }
                self.plugins.len() - 1
            },
        }
    }

    /// Get (or create) the record for a plugin id.
    pub fn record_mut(&mut self, plugin_id: &str) -> (r: &mut PluginRecord)
        requires
            old(self).wf(),
        ensures
            (*r)@ == record_or_empty(old(self)@, plugin_id@),
            final(self).wf(),
            final(self)@ == old(self)@.insert(plugin_id@, (*final(r))@),
    {
        let i = self.ensure_record(plugin_id);
        proof {
            lemma_records_unique(self.plugins@);
        }
        let ghost mid = self.plugins@;
        let r = &mut self.plugins[i].1;
        proof {
            let a = records_view(mid);
            assert(a[i as int] == (mid[i as int].0, mid[i as int].1@));
            let fin = (*final(r))@;
            lemma_assoc_update(a, i as int, fin);
            assert(records_view(mid.update(i as int, (mid[i as int].0, *final(r)))) =~= a.update(
                i as int,
                (a[i as int].0, fin),
            ));
            assert(assoc_view(a).insert(plugin_id@, fin) =~= old(self)@.insert(plugin_id@, fin));
        }
        r
    }

    /// The record of a plugin id, if any decision was stored.
    pub fn record(&self, plugin_id: &str) -> (r: Option<&PluginRecord>)
        requires
            self.wf(),
        ensures
            match r {
                Some(rec) => self@.contains_key(plugin_id@) && self@[plugin_id@] == rec@,
                None => !self@.contains_key(plugin_id@),
            },
    {
        proof {
            lemma_records_unique(self.plugins@);
            lemma_assoc_view(records_view(self.plugins@));
        }
        match find_key(&self.plugins, plugin_id) {
            Some(i) => {
                proof {
                    assert(records_view(self.plugins@)[i as int].0@ == plugin_id@);
                }
                Some(&self.plugins[i].1)
            },
            None => {
                proof {
                    let t = records_view(self.plugins@);
                    if self@.contains_key(plugin_id@) {
                        let j = choose|j: int| 0 <= j < t.len() && (#[trigger] t[j]).0@ == plugin_id@;
                        assert(self.plugins@[j].0@ == plugin_id@);
                    }
                }
                None
            },
        }
    }

    /// The ids of every plugin with a record, each once, in ascending text
    /// order.
    pub fn plugin_ids(&self) -> (r: Vec<String>)
        requires
            self.wf(),
        ensures
            forall|a: int, b: int| 0 <= a < b < r@.len() ==> text_lt((#[trigger] r@[a])@, (#[trigger] r@[b])@),
            forall|a: int, b: int| 0 <= a < b < r@.len() ==> (#[trigger] r@[a])@ != (#[trigger] r@[b])@,
            forall|id: Seq<char>| self@.contains_key(id) <==> exists|k: int| 0 <= k < r@.len() && (#[trigger] r@[k])@ == id,
    {
        proof {
            lemma_records_unique(self.plugins@);
            lemma_assoc_view(records_view(self.plugins@));
        }
        let ghost t = records_view(self.plugins@);
        let mut out: Vec<String> = Vec::new();
        let n = self.plugins.len();
        let mut i: usize = 0;
        while i < n
            invariant
                n == self.plugins@.len(),
                t == records_view(self.plugins@),
                keys_unique(t),
                i <= n,
                ascending(out@),
                drawn_from(out@, t, i as int),
                covers(out@, t, i as int),
            decreases n - i,
        {
            let id = owned(self.plugins[i].0.as_str());
            proof {
                assert(t[i as int].0@ == id@);
            }
            let mut j: usize = 0;
            while j < out.len() && text_less(out[j].as_str(), id.as_str())
                invariant
                    j <= out@.len(),
                    forall|x: int| 0 <= x < j ==> text_lt((#[trigger] out@[x])@, id@),
                decreases out@.len() - j,
            {
                j = j + 1;
            }
            let ghost before = out@;
            out.insert(j, id);
            proof {
                lemma_insert_id(t, i as int, before, j as int, id);
                assert(out@ =~= before.insert(j as int, id));
            }
            i = i + 1;
        }
        proof {
            assert forall|a: int, b: int| 0 <= a < b < out@.len() implies (#[trigger] out@[a])@ != (#[trigger] out@[b])@ by {
                lemma_text_lt_irreflexive(out@[a]@);
            }
            assert forall|id: Seq<char>| self@.contains_key(id) <==> exists|k: int| 0 <= k < out@.len() && (#[trigger] out@[k])@ == id by {
                if self@.contains_key(id) {
                    let m = choose|m: int| 0 <= m < t.len() && (#[trigger] t[m]).0@ == id;
                    assert(exists|k: int| 0 <= k < out@.len() && (#[trigger] out@[k])@ == t[m].0@);
                }
                if exists|k: int| 0 <= k < out@.len() && (#[trigger] out@[k])@ == id {
                    let k = choose|k: int| 0 <= k < out@.len() && (#[trigger] out@[k])@ == id;
                    let m = choose|m: int| 0 <= m < n && (#[trigger] t[m]).0@ == out@[k]@;
                    assert(t[m].0@ == id);
                }
            }
        }
        out
    }

    /// Remove all decisions for a plugin (used by "Forget decision").
    pub fn forget(&mut self, plugin_id: &str)
        requires
            old(self).wf(),
        ensures
            final(self).wf(),
            final(self)@ == old(self)@.remove(plugin_id@),
    {
        proof {
            lemma_records_unique(self.plugins@);
            lemma_assoc_view(records_view(self.plugins@));
        }
        match find_key(&self.plugins, plugin_id) {
            Some(i) => {
                let ghost before = self.plugins@;
                self.plugins.remove(i);
                proof {
                    assert(records_view(self.plugins@) =~= records_view(before).remove(i as int));
                    lemma_assoc_remove(records_view(before), i as int);
                    assert(records_view(before)[i as int].0@ == plugin_id@);
                    lemma_records_unique(self.plugins@);
                }
            },
            None => {
                proof {
                    let t = records_view(self.plugins@);
                    if self@.contains_key(plugin_id@) {
                        let j = choose|j: int| 0 <= j < t.len() && (#[trigger] t[j]).0@ == plugin_id@;
                        assert(self.plugins@[j].0@ == plugin_id@);
                    }
                    assert(self@.remove(plugin_id@) =~= self@);
                }
            },
        }
    }

    fn decide(&mut self, plugin_id: &str, capability: &str, decision: CapabilityDecision)
        requires
            old(self).wf(),
        ensures
            final(self).wf(),
            final(self)@ == decide_spec(old(self)@, plugin_id@, capability@, decision),
    {
        let rec = self.record_mut(plugin_id);
        rec.decide(capability, decision);
    }

    /// Approve one capability.
    pub fn approve(&mut self, plugin_id: &str, capability: &str)
        requires
            old(self).wf(),
        ensures
            final(self).wf(),
            final(self)@ == decide_spec(old(self)@, plugin_id@, capability@, CapabilityDecision::Approved),
    {
        self.decide(plugin_id, capability, CapabilityDecision::Approved);
    }

    /// Deny one capability.
    pub fn deny(&mut self, plugin_id: &str, capability: &str)
        requires
            old(self).wf(),
        ensures
            final(self).wf(),
            final(self)@ == decide_spec(old(self)@, plugin_id@, capability@, CapabilityDecision::Denied),
    {
        self.decide(plugin_id, capability, CapabilityDecision::Denied);
    }

    /// Set the enabled flag for a plugin.
    pub fn set_enabled(&mut self, plugin_id: &str, enabled: bool)
        requires
            old(self).wf(),
        ensures
            final(self).wf(),
            final(self)@ == enable_spec(old(self)@, plugin_id@, enabled),
    {
        let rec = self.record_mut(plugin_id);
        rec.set_enabled(enabled);
    }

    /// True when every capability the plugin requests has an explicit user
    /// decision; only then can the plugin be enabled from the list.
    pub fn fully_decided(&self, plugin_id: &str, caps: &PluginCapabilities) -> (r: bool)
        requires
            self.wf(),
        ensures
            r == decided_spec(self@, plugin_id@, *caps),
    {
        let requested = caps.requested();
        if requested.len() == 0 {
            return false;
        }
        let ghost req = requested@.map_values(|s: &str| s@);
        let rec = match self.record(plugin_id) {
            Some(rec) => rec,
            None => {
                assert(!self@.contains_key(plugin_id@));
                assert(req.len() > 0 && req[0] == requested@[0]@);
                return false;
            },
        };
        let n = requested.len();
        let mut i: usize = 0;
        while i < n
            invariant
                n == requested@.len(),
                req == requested@.map_values(|s: &str| s@),
                req == requested_spec(*caps),
                self@.contains_key(plugin_id@),
                self@[plugin_id@] == rec@,
                i <= n,
                forall|k: int| 0 <= k < i ==> rec@.decisions.contains_key(#[trigger] req[k]),
            decreases n - i,
        {
            if rec.decision(requested[i]).is_none() {
                assert(req[i as int] == requested@[i as int]@);
                return false;
            }
            i = i + 1;
        }
        true
    }

    /// The effective runtime grant for one capability of one plugin:
    /// approved by the user for *this* plugin, requested by its manifest,
    /// and — for sensitive capabilities — never granted to WASM regardless
    /// of the stored approval.
    pub fn effective_grant(&self, plugin_id: &str, caps: &PluginCapabilities, capability: &str, is_wasm: bool) -> (r: bool)
        requires
            self.wf(),
        ensures
            r == grant_spec(self@, plugin_id@, *caps, capability@, is_wasm),
    {
        let requested = caps.requested();
        let ghost req = requested@.map_values(|s: &str| s@);
        let n = requested.len();
        let mut found = false;
        let mut i: usize = 0;
        while i < n
            invariant
                n == requested@.len(),
                req == requested@.map_values(|s: &str| s@),
                i <= n,
                found == exists|k: int| 0 <= k < i && req[k] == capability@,
            decreases n - i,
        {
            if str_eq(requested[i], capability) {
                proof {
                    assert(req[i as int] == capability@);
                }
                found = true;
            }
            i = i + 1;
        }
        if !found {
            proof {
                if req.contains(capability@) {
                    let k = choose|k: int| 0 <= k < req.len() && req[k] == capability@;
                    assert(false);
                }
            }
            return false;
        }
        let approved = match self.record(plugin_id) {
            Some(rec) => match rec.decision(capability) {
                Some(CapabilityDecision::Approved) => true,
                _ => false,
            },
            None => false,
        };
        if !approved {
            return false;
        }
        if is_wasm && (str_eq(capability, "secrets") || str_eq(capability, "capture")) {
            return false;
        }
        true
    }
}

/// Decisions are per plugin: recording a decision for one plugin changes
/// no grant of another plugin.
pub proof fn lemma_decisions_are_per_plugin(
    v: Map<Seq<char>, RecordView>,
    id: Seq<char>,
    capability: Seq<char>,
    decision: CapabilityDecision,
    other: Seq<char>,
    caps: PluginCapabilities,
    asked: Seq<char>,
    is_wasm: bool,
)
    requires
        id != other,
    ensures
        grant_spec(decide_spec(v, id, capability, decision), other, caps, asked, is_wasm)
            == grant_spec(v, other, caps, asked, is_wasm),
{
}

/// Sensitive capabilities are never granted to WASM code, whatever was
/// stored; and nothing is granted that the manifest does not request or the
/// user did not approve for this plugin.
pub proof fn lemma_grant_is_default_deny(
    v: Map<Seq<char>, RecordView>,
    id: Seq<char>,
    caps: PluginCapabilities,
    capability: Seq<char>,
)
    ensures
        !grant_spec(v, id, caps, "secrets"@, true),
        !grant_spec(v, id, caps, "capture"@, true),
        !v.contains_key(id) ==> !grant_spec(v, id, caps, capability, false),
        grant_spec(decide_spec(v, id, capability, CapabilityDecision::Denied), id, caps, capability, false) == false,
{
}

/// Approving a requested, non-sensitive capability grants it; forgetting a
/// plugin revokes every grant it had.
pub proof fn lemma_approve_then_forget(
    v: Map<Seq<char>, RecordView>,
    id: Seq<char>,
    caps: PluginCapabilities,
    capability: Seq<char>,
    is_wasm: bool,
)
    requires
        requested_spec(caps).contains(capability),
        !(is_wasm && (capability == "secrets"@ || capability == "capture"@)),
    ensures
        grant_spec(decide_spec(v, id, capability, CapabilityDecision::Approved), id, caps, capability, is_wasm),
        !grant_spec(v.remove(id), id, caps, capability, is_wasm),
{
}

} // verus!
