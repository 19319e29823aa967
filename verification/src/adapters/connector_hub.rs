//! The connector-hub adapter: provider routing decisions for steps.

use vstd::prelude::*;
use crate::json::JsonValue;
use crate::strutil::copy_str;

verus! {

/// How provider routes are chosen.
#[derive(Debug, Clone)]
pub struct RoutingConfig {
    /// The provider used when no route matches.
    pub default_provider: String,
    /// Whether load is spread across providers.
    pub load_balancing: bool,
    /// Whether failed providers are failed over.
    pub failover_enabled: bool,
    /// Greatest number of retries against failed providers.
    pub max_retries: u32,
}

impl RoutingConfig {
    /// The defaults: route to `openai`, no load balancing, failover on,
    /// three retries.
    pub fn new_default() -> (r: RoutingConfig)
        ensures
            r.default_provider@ == "openai"@,
            !r.load_balancing,
            r.failover_enabled,
            r.max_retries == 3,
    {
        RoutingConfig {
            default_provider: copy_str("openai"),
            load_balancing: false,
            failover_enabled: true,
            max_retries: 3,
        }
    }
}

/// One route of a step to a provider.
#[derive(Debug, Clone)]
pub struct ProviderRoute {
    /// The chosen provider.
    pub provider: String,
    /// Where the provider answers.
    pub endpoint: String,
    /// Provider-specific settings.
    pub config: Vec<(String, JsonValue)>,
    /// Lower is tried earlier.
    pub priority: u32,
    /// Whether the route is a fallback.
    pub is_fallback: bool,
    /// Whether the provider looked healthy.
    pub healthy: bool,
}

impl Default for RoutingConfig {
    /// The same defaults as [`RoutingConfig::new_default`].
    fn default() -> (r: RoutingConfig)
        ensures
            r.default_provider@ == "openai"@,
            !r.load_balancing,
            r.failover_enabled,
            r.max_retries == 3,
    {
        RoutingConfig::new_default()
    }
}

/// The adapter: a disableable client of the routing service.
#[derive(Debug, Clone)]
pub struct ConnectorHubAdapter {
    endpoint: String,
    config: RoutingConfig,
    enabled: bool,
}

impl ConnectorHubAdapter {
    /// An enabled adapter against an endpoint, with default routing.
    pub fn new(endpoint: String) -> (r: ConnectorHubAdapter)
        ensures
            r.spec_enabled(),
            r.endpoint_view() == endpoint@,
            r.spec_config().default_provider@ == "openai"@,
            !r.spec_config().load_balancing,
            r.spec_config().failover_enabled,
            r.spec_config().max_retries == 3,
    {
        ConnectorHubAdapter { endpoint, config: RoutingConfig::new_default(), enabled: true }
    }

    /// An enabled adapter with its own routing config.
    pub fn with_config(endpoint: String, config: RoutingConfig) -> (r: ConnectorHubAdapter)
        ensures
            r.spec_enabled(),
            r.endpoint_view() == endpoint@,
            r.spec_config() == config,
    {
        ConnectorHubAdapter { endpoint, config, enabled: true }
    }

    /// A disabled adapter: every call is a no-op; it carries the default
    /// routing config.
    pub fn disabled() -> (r: ConnectorHubAdapter)
        ensures
            !r.spec_enabled(),
            r.endpoint_view() == Seq::<char>::empty(),
            r.spec_config().default_provider@ == "openai"@,
            !r.spec_config().load_balancing,
            r.spec_config().failover_enabled,
            r.spec_config().max_retries == 3,
    {
        ConnectorHubAdapter {
            endpoint: String::new(),
            config: RoutingConfig::new_default(),
            enabled: false,
        }
    }

    /// Whether calls do anything.
    pub closed spec fn spec_enabled(self) -> bool {
        self.enabled
    }

    /// The configured endpoint.
    pub closed spec fn endpoint_view(self) -> Seq<char> {
        self.endpoint@
    }

    /// The routing config.
    pub closed spec fn spec_config(self) -> RoutingConfig {
        self.config
    }
}

impl Default for ConnectorHubAdapter {
    /// A disabled adapter, as [`ConnectorHubAdapter::disabled`].
    fn default() -> (r: ConnectorHubAdapter)
        ensures
            !r.spec_enabled(),
    {
        ConnectorHubAdapter::disabled()
    }
}

impl ConnectorHubAdapter {

    /// Whether calls do anything.
    pub fn is_enabled(&self) -> (r: bool)
        ensures
            r == self.spec_enabled(),
    {
        self.enabled
    }

    /// The configured endpoint.
    pub fn endpoint(&self) -> (r: &str)
        ensures
            r@ == self.endpoint_view(),
    {
        self.endpoint.as_str()
    }

    /// The routing config.
    pub fn config(&self) -> (r: &RoutingConfig)
        ensures
            *r == self.spec_config(),
    {
        &self.config
    }

    /// The route for a step: the hinted provider, or the default. `None`
    /// when disabled.
    pub fn get_route(&self, step_id: &str, provider_hint: Option<&str>, model: &str)
        -> (r: Option<ProviderRoute>)
        ensures
            !self.spec_enabled() ==> r is None,
            self.spec_enabled() ==> (match r {
                Option::Some(route) => route.provider@ == (match provider_hint {
                    Option::Some(h) => h@,
                    Option::None => self.spec_config().default_provider@,
                }),
                Option::None => false,
            }),
    {
        if !self.enabled {
            return None;
        }
        let provider = match provider_hint {
            Option::Some(h) => copy_str(h),
            Option::None => self.config.default_provider.clone(),
        };
        let mut endpoint = copy_str("https://api.");
        endpoint.append(provider.as_str());
        endpoint.append(".com/v1");
        Some(ProviderRoute {
            provider,
            endpoint,
            config: Vec::new(),
            priority: 1,
            is_fallback: false,
            healthy: true,
        })
    }

    /// The known routes for a provider kind; empty when disabled.
    pub fn get_available_routes(&self, provider_type: &str) -> (r: Vec<ProviderRoute>)
        ensures
            !self.spec_enabled() ==> r@.len() == 0,
            self.spec_enabled() ==> r@.len() == 1 && r@[0].provider@ == provider_type@,
    {
        if !self.enabled {
            return Vec::new();
        }
        let mut endpoint = copy_str("https://api.");
        endpoint.append(provider_type);
        endpoint.append(".com/v1");
        let mut out: Vec<ProviderRoute> = Vec::new();
        out.push(ProviderRoute {
            provider: copy_str(provider_type),
            endpoint,
            config: Vec::new(),
            priority: 1,
            is_fallback: false,
            healthy: true,
        });
        out
    }

    /// Hands a provider failure to the hub; a no-op when disabled.
    pub fn report_failure(&self, provider: &str, error: &str)
    {
    }

    /// Hands a success and its latency to the hub; a no-op when disabled.
    pub fn report_success(&self, provider: &str, latency_ms: u64)
    {
    }

    /// Whether the hub believes a provider healthy; disabled adapters
    /// assume health.
    pub fn check_provider_health(&self, provider: &str) -> (r: bool)
        ensures
            r,
    {
        true
    }
}

} // verus!
