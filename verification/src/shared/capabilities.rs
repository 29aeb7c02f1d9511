//! Capability registry: which features are available at runtime, so that the
//! application degrades gracefully when optional (LLM) features are absent.

use vstd::prelude::*;

verus! {

/// Identifies features that can be enabled or disabled at runtime.
#[derive(Debug, Clone, Copy, PartialEq, Eq, Hash, Structural)]
pub enum FeatureId {
    /// LLM-powered natural language interface
    LlmChat,
    /// LLM-guided browser automation
    LlmGuidedBrowsing,
    /// LLM-based form field detection
    LlmFormDetection,
    /// LLM content extraction from broker sites
    LlmContentExtraction,
    /// Browser automation (without LLM)
    BrowserAutomation,
    /// Manual scanning via URL templates
    ManualScanning,
    /// Encrypted vault for PII storage
    EncryptedVault,
    /// Scheduled background tasks
    Scheduling,
    /// Desktop notifications
    Notifications,
    /// Local PII discovery
    LocalDiscovery,
    /// Network telemetry
    NetworkTelemetry,
    /// Plugin system
    Plugins,
}

/// Human-readable name of a feature.
pub open spec fn feature_display_name(f: FeatureId) -> &'static str {
    match f {
        FeatureId::LlmChat => "LLM Chat Interface",
        FeatureId::LlmGuidedBrowsing => "LLM-Guided Browsing",
        FeatureId::LlmFormDetection => "LLM Form Detection",
        FeatureId::LlmContentExtraction => "LLM Content Extraction",
        FeatureId::BrowserAutomation => "Browser Automation",
        FeatureId::ManualScanning => "Manual Scanning",
        FeatureId::EncryptedVault => "Encrypted Vault",
        FeatureId::Scheduling => "Background Scheduling",
        FeatureId::Notifications => "Desktop Notifications",
        FeatureId::LocalDiscovery => "Local PII Discovery",
        FeatureId::NetworkTelemetry => "Network Telemetry",
        FeatureId::Plugins => "Plugin System",
    }
}

/// Description of what a feature provides.
pub open spec fn feature_description(f: FeatureId) -> &'static str {
    match f {
        FeatureId::LlmChat => "Natural language interface for querying and controlling Spectral",
        FeatureId::LlmGuidedBrowsing => "AI-assisted navigation and interaction with data broker sites",
        FeatureId::LlmFormDetection => "Automatic detection and filling of opt-out forms",
        FeatureId::LlmContentExtraction => "Extract structured data from unstructured broker pages",
        FeatureId::BrowserAutomation => "Headless browser for JavaScript-heavy broker sites",
        FeatureId::ManualScanning => "URL template-based scanning without browser automation",
        FeatureId::EncryptedVault => "Secure storage for your personal information",
        FeatureId::Scheduling => "Automatic periodic scans and re-checks",
        FeatureId::Notifications => "Desktop alerts for scan results and removals",
        FeatureId::LocalDiscovery => "Scan local files for PII exposure",
        FeatureId::NetworkTelemetry => "Monitor network connections for privacy insights",
        FeatureId::Plugins => "Extend Spectral with custom broker definitions and integrations",
    }
}

/// The LLM-dependent features, in their declared order.
pub open spec fn llm_feature_seq() -> Seq<FeatureId> {
    seq![
        FeatureId::LlmChat,
        FeatureId::LlmGuidedBrowsing,
        FeatureId::LlmFormDetection,
        FeatureId::LlmContentExtraction,
    ]
}

/// The LLM-dependent features.
pub open spec fn llm_feature_set() -> Set<FeatureId> {
    set![
        FeatureId::LlmChat,
        FeatureId::LlmGuidedBrowsing,
        FeatureId::LlmFormDetection,
        FeatureId::LlmContentExtraction,
    ]
}

/// Every feature, in declaration order.
pub open spec fn all_feature_seq() -> Seq<FeatureId> {
    seq![FeatureId::LlmChat, FeatureId::LlmGuidedBrowsing, FeatureId::LlmFormDetection, FeatureId::LlmContentExtraction, FeatureId::BrowserAutomation, FeatureId::ManualScanning, FeatureId::EncryptedVault, FeatureId::Scheduling, FeatureId::Notifications, FeatureId::LocalDiscovery, FeatureId::NetworkTelemetry, FeatureId::Plugins]
}

/// A feature depends on an LLM provider.
pub open spec fn is_llm_feature(f: FeatureId) -> bool {
    f == FeatureId::LlmChat || f == FeatureId::LlmGuidedBrowsing || f
        == FeatureId::LlmFormDetection || f == FeatureId::LlmContentExtraction
}

/// Some LLM feature is in `s`.
pub open spec fn has_llm(s: Set<FeatureId>) -> bool {
    exists|f: FeatureId| is_llm_feature(f) && #[trigger] s.contains(f)
}

impl FeatureId {
    /// A human-readable name for this feature.
    pub fn display_name(&self) -> (r: &'static str)
        ensures
            r == feature_display_name(*self),
    {
        match self {
            FeatureId::LlmChat => "LLM Chat Interface",
            FeatureId::LlmGuidedBrowsing => "LLM-Guided Browsing",
            FeatureId::LlmFormDetection => "LLM Form Detection",
            FeatureId::LlmContentExtraction => "LLM Content Extraction",
            FeatureId::BrowserAutomation => "Browser Automation",
            FeatureId::ManualScanning => "Manual Scanning",
            FeatureId::EncryptedVault => "Encrypted Vault",
            FeatureId::Scheduling => "Background Scheduling",
            FeatureId::Notifications => "Desktop Notifications",
            FeatureId::LocalDiscovery => "Local PII Discovery",
            FeatureId::NetworkTelemetry => "Network Telemetry",
            FeatureId::Plugins => "Plugin System",
        }
    }

    /// A description of what this feature provides.
    pub fn description(&self) -> (r: &'static str)
        ensures
            r == feature_description(*self),
    {
        match self {
            FeatureId::LlmChat => "Natural language interface for querying and controlling Spectral",
            FeatureId::LlmGuidedBrowsing => "AI-assisted navigation and interaction with data broker sites",
            FeatureId::LlmFormDetection => "Automatic detection and filling of opt-out forms",
            FeatureId::LlmContentExtraction => "Extract structured data from unstructured broker pages",
            FeatureId::BrowserAutomation => "Headless browser for JavaScript-heavy broker sites",
            FeatureId::ManualScanning => "URL template-based scanning without browser automation",
            FeatureId::EncryptedVault => "Secure storage for your personal information",
            FeatureId::Scheduling => "Automatic periodic scans and re-checks",
            FeatureId::Notifications => "Desktop alerts for scan results and removals",
            FeatureId::LocalDiscovery => "Scan local files for PII exposure",
            FeatureId::NetworkTelemetry => "Monitor network connections for privacy insights",
            FeatureId::Plugins => "Extend Spectral with custom broker definitions and integrations",
        }
    }

    /// All LLM-dependent features.
    pub fn llm_features() -> (r: &'static [FeatureId])
        ensures
            r@ == llm_feature_seq(),
    {
        let r: &'static [FeatureId] = &[
            FeatureId::LlmChat,
            FeatureId::LlmGuidedBrowsing,
            FeatureId::LlmFormDetection,
            FeatureId::LlmContentExtraction,
        ];
        assert(r@ =~= llm_feature_seq());
        r
    }

    /// Whether this is an LLM-dependent feature.
    pub fn requires_llm(&self) -> (r: bool)
        ensures
            r == is_llm_feature(*self),
            r == llm_feature_seq().contains(*self),
    {
        let feats = Self::llm_features();
        let mut i: usize = 0;
        while i < feats.len()
            invariant
                feats@ == llm_feature_seq(),
                i <= feats@.len(),
                forall|j: int| 0 <= j < i ==> feats@[j] != *self,
            decreases feats@.len() - i,
        {
            if feats[i] == *self {
                assert(llm_feature_seq()[i as int] == *self);
                return true;
            }
            i += 1;
        }
        proof {
            if llm_feature_seq().contains(*self) {
                let j = choose|j: int| 0 <= j < llm_feature_seq().len() && llm_feature_seq()[j] == *self;
                assert(feats@[j] == *self);
            }
        }
        false
    }
}

/// Registry tracking which features are currently available.
#[derive(Debug)]
pub struct CapabilityRegistry {
    enabled_features: Vec<FeatureId>,
}

impl View for CapabilityRegistry {
    type V = Set<FeatureId>;

    closed spec fn view(&self) -> Set<FeatureId> {
        Set::new(|f: FeatureId| self.enabled_features@.contains(f))
    }
}

impl CapabilityRegistry {
    /// No feature is listed twice.
    #[verifier::type_invariant]
    spec fn distinct(self) -> bool {
        self.enabled_features@.no_duplicates()
    }

    /// A registry with the default features enabled: only the non-LLM
    /// `ManualScanning` and `EncryptedVault`.
    pub fn new() -> (r: Self)
        ensures
            r@ == set![FeatureId::ManualScanning, FeatureId::EncryptedVault],
    {
        let mut v: Vec<FeatureId> = Vec::new();
        v.push(FeatureId::ManualScanning);
        v.push(FeatureId::EncryptedVault);
        let r = CapabilityRegistry { enabled_features: v };
        assert(r@ =~= set![FeatureId::ManualScanning, FeatureId::EncryptedVault]) by {
            assert(v@[0] == FeatureId::ManualScanning);
            assert(v@[1] == FeatureId::EncryptedVault);
        }
        r
    }

    /// Whether a feature is currently available.
    pub fn is_feature_available(&self, feature: FeatureId) -> (r: bool)
        ensures
            r == self@.contains(feature),
    {
        let mut i: usize = 0;
        while i < self.enabled_features.len()
            invariant
                i <= self.enabled_features@.len(),
                forall|j: int| 0 <= j < i ==> self.enabled_features@[j] != feature,
            decreases self.enabled_features@.len() - i,
        {
            if self.enabled_features[i] == feature {
                return true;
            }
            i += 1;
        }
        false
    }

    /// Enables a feature.
    pub fn enable_feature(&mut self, feature: FeatureId)
        ensures
            final(self)@ == old(self)@.insert(feature),
    {
        proof {
            use_type_invariant(&*self);
        }
        if self.is_feature_available(feature) {
            assert(self@.insert(feature) =~= self@);
            return;
        }
        let ghost before = self.enabled_features@;
        proof {
            let after = before.push(feature);
            assert forall|i: int, j: int| 0 <= i < j < after.len() implies after[i] != after[j] by {
                if j == after.len() - 1 {
                    assert(before.contains(before[i]));
                }
            }
            assert forall|f: FeatureId| #[trigger] after.contains(f) <==> (before.contains(f) || f == feature) by {
                if after.contains(f) {
                    let k = choose|k: int| 0 <= k < after.len() && after[k] == f;
                    if k < before.len() {
                        assert(before[k] == f);
                    }
                }
                if before.contains(f) {
                    let k = choose|k: int| 0 <= k < before.len() && before[k] == f;
                    assert(after[k] == f);
                }
                if f == feature {
                    assert(after[before.len() as int] == f);
                }
            }
        }
        let mut v: Vec<FeatureId> = Vec::new();
        std::mem::swap(&mut v, &mut self.enabled_features);
        v.push(feature);
        self.enabled_features = v;
        assert(self@ =~= old(self)@.insert(feature));
    }

    /// Disables a feature.
    pub fn disable_feature(&mut self, feature: FeatureId)
        ensures
            final(self)@ == old(self)@.remove(feature),
    {
        proof {
            use_type_invariant(&*self);
        }
        let n = self.enabled_features.len();
        let mut i: usize = 0;
        while i < n
            invariant
                n == self.enabled_features@.len(),
                self.enabled_features@ == old(self).enabled_features@,
                self.enabled_features@.no_duplicates(),
                i <= n,
                forall|j: int| 0 <= j < i ==> self.enabled_features@[j] != feature,
            decreases n - i,
        {
            if self.enabled_features[i] == feature {
                let ghost before = self.enabled_features@;
                proof {
                    let after = before.remove(i as int);
                    assert forall|a: int, b: int| 0 <= a < b < after.len() implies after[a] != after[b] by {
                        let a2 = if a < i { a } else { a + 1 };
                        let b2 = if b < i { b } else { b + 1 };
                        assert(before[a2] != before[b2]);
                    }
                    assert forall|g: FeatureId| #[trigger] after.contains(g) <==> (before.contains(g) && g != feature) by {
                        if after.contains(g) {
                            let k = choose|k: int| 0 <= k < after.len() && after[k] == g;
                            let k2 = if k < i { k } else { k + 1 };
                            assert(before[k2] == g);
                            assert(k2 != i);
                        }
                        if before.contains(g) && g != feature {
                            let k = choose|k: int| 0 <= k < before.len() && before[k] == g;
                            if k < i {
                                assert(after[k] == g);
                            } else {
                                assert(k != i);
                                assert(after[k - 1] == g);
                            }
                        }
                    }
                }
                let mut v: Vec<FeatureId> = Vec::new();
                std::mem::swap(&mut v, &mut self.enabled_features);
                v.remove(i);
                self.enabled_features = v;
                assert(self@ =~= old(self)@.remove(feature));
                return;
            }
            i += 1;
        }
        assert(self@ =~= old(self)@.remove(feature));
    }

    /// All currently enabled features, each once.
    pub fn enabled_features(&self) -> (r: Vec<FeatureId>)
        ensures
            r@.no_duplicates(),
            forall|f: FeatureId| r@.contains(f) <==> self@.contains(f),
    {
        proof {
            use_type_invariant(self);
        }
        self.enabled_features.clone()
    }

    /// Every feature that could be enabled.
    pub fn all_features() -> (r: Vec<FeatureId>)
        ensures
            r@ == all_feature_seq(),
    {
        let r = vec![
            FeatureId::LlmChat,
            FeatureId::LlmGuidedBrowsing,
            FeatureId::LlmFormDetection,
            FeatureId::LlmContentExtraction,
            FeatureId::BrowserAutomation,
            FeatureId::ManualScanning,
            FeatureId::EncryptedVault,
            FeatureId::Scheduling,
            FeatureId::Notifications,
            FeatureId::LocalDiscovery,
            FeatureId::NetworkTelemetry,
            FeatureId::Plugins
        ];
        assert(r@ =~= all_feature_seq());
        r
    }

    /// Whether any LLM feature is available.
    pub fn has_llm_capabilities(&self) -> (r: bool)
        ensures
            r == has_llm(self@),
    {
        let a = self.is_feature_available(FeatureId::LlmChat);
        let b = self.is_feature_available(FeatureId::LlmGuidedBrowsing);
        let c = self.is_feature_available(FeatureId::LlmFormDetection);
        let d = self.is_feature_available(FeatureId::LlmContentExtraction);
        proof {
            if has_llm(self@) {
                let f = choose|f: FeatureId| is_llm_feature(f) && self@.contains(f);
            }
        }
        a || b || c || d
    }

    /// Enables all LLM features (when an LLM provider is configured).
    pub fn enable_llm_features(&mut self)
        ensures
            final(self)@ == old(self)@.union(llm_feature_set()),
    {
        self.enable_feature(FeatureId::LlmChat);
        self.enable_feature(FeatureId::LlmGuidedBrowsing);
        self.enable_feature(FeatureId::LlmFormDetection);
        self.enable_feature(FeatureId::LlmContentExtraction);
        assert(self@ =~= old(self)@.union(llm_feature_set()));
    }

    /// Disables all LLM features.
    pub fn disable_llm_features(&mut self)
        ensures
            final(self)@ == old(self)@.difference(llm_feature_set()),
    {
        self.disable_feature(FeatureId::LlmChat);
        self.disable_feature(FeatureId::LlmGuidedBrowsing);
        self.disable_feature(FeatureId::LlmFormDetection);
        self.disable_feature(FeatureId::LlmContentExtraction);
        assert(self@ =~= old(self)@.difference(llm_feature_set()));
    }
}

impl Clone for CapabilityRegistry {
    fn clone(&self) -> (r: Self)
        ensures
            r@ == self@,
    {
        proof {
            use_type_invariant(self);
        }
        let mut v: Vec<FeatureId> = Vec::new();
        let mut i: usize = 0;
        while i < self.enabled_features.len()
            invariant
                i <= self.enabled_features@.len(),
                v@ == self.enabled_features@.take(i as int),
            decreases self.enabled_features@.len() - i,
        {
            v.push(self.enabled_features[i]);
            i += 1;
            assert(v@ =~= self.enabled_features@.take(i as int));
        }
        assert(v@ =~= self.enabled_features@);
        CapabilityRegistry { enabled_features: v }
    }
}

impl Default for CapabilityRegistry {
    fn default() -> (r: Self)
        ensures
            r@ == set![FeatureId::ManualScanning, FeatureId::EncryptedVault],
    {
        Self::new()
    }
}

/// A fresh registry offers no LLM capability.
pub proof fn law_default_registry_has_no_llm()
    ensures
        !has_llm(set![FeatureId::ManualScanning, FeatureId::EncryptedVault]),
{
}

/// After the LLM features are enabled, LLM capabilities are available; after
/// they are disabled, none is, whatever was enabled before.
pub proof fn law_llm_switch(s: Set<FeatureId>)
    ensures
        has_llm(s.union(llm_feature_set())),
        !has_llm(s.difference(llm_feature_set())),
{
    assert(s.union(llm_feature_set()).contains(FeatureId::LlmChat));
}

/// Enabling a feature makes it available and disabling makes it unavailable;
/// neither touches any other feature.
pub proof fn law_enable_disable_feature(s: Set<FeatureId>, f: FeatureId, g: FeatureId)
    ensures
        s.insert(f).contains(f),
        !s.remove(f).contains(f),
        g != f ==> (s.insert(f).contains(g) == s.contains(g) && s.remove(f).contains(g)
            == s.contains(g)),
        !s.contains(f) ==> s.insert(f).remove(f) == s,
{
    if !s.contains(f) {
        assert(s.insert(f).remove(f) =~= s);
    }
}

/// The list of all features names every feature exactly once.
pub proof fn law_all_features_complete(f: FeatureId)
    ensures
        all_feature_seq().contains(f),
        all_feature_seq().no_duplicates(),
{
    let s = all_feature_seq();
    match f {
        FeatureId::LlmChat => assert(s[0] == f),
        FeatureId::LlmGuidedBrowsing => assert(s[1] == f),
        FeatureId::LlmFormDetection => assert(s[2] == f),
        FeatureId::LlmContentExtraction => assert(s[3] == f),
        FeatureId::BrowserAutomation => assert(s[4] == f),
        FeatureId::ManualScanning => assert(s[5] == f),
        FeatureId::EncryptedVault => assert(s[6] == f),
        FeatureId::Scheduling => assert(s[7] == f),
        FeatureId::Notifications => assert(s[8] == f),
        FeatureId::LocalDiscovery => assert(s[9] == f),
        FeatureId::NetworkTelemetry => assert(s[10] == f),
        FeatureId::Plugins => assert(s[11] == f),
    }
}

/// The LLM features are exactly those that `requires_llm` reports.
pub proof fn law_llm_features_are_those_requiring_llm(f: FeatureId)
    ensures
        llm_feature_set().contains(f) <==> is_llm_feature(f),
        llm_feature_seq().contains(f) <==> is_llm_feature(f),
{
    if is_llm_feature(f) {
        let s = llm_feature_seq();
        if f == FeatureId::LlmChat { assert(s[0] == f); }
        if f == FeatureId::LlmGuidedBrowsing { assert(s[1] == f); }
        if f == FeatureId::LlmFormDetection { assert(s[2] == f); }
        if f == FeatureId::LlmContentExtraction { assert(s[3] == f); }
    }
}

} // verus!
