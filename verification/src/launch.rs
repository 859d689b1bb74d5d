use vstd::prelude::*;
use crate::config::Config;
use crate::text::{decimal, push_decimal, push_text, string_of};

verus! {

/// The context and output limits of a model, as opencode takes them.
pub struct OpencodeModelLimits {
    pub context: usize,
    pub output: usize,
}

/// A model entry of an opencode provider.
pub struct OpencodeModel {
    pub name: String,
    pub limit: Option<OpencodeModelLimits>,
}

/// The options of an opencode provider.
pub struct OpencodeProviderOptions {
    pub base_uri: String,
}

/// An opencode provider: its models, by key.
pub struct OpencodeProvider {
    pub npm: String,
    pub name: String,
    pub options: OpencodeProviderOptions,
    pub models: Vec<(String, OpencodeModel)>,
}

/// An opencode configuration: its providers, by key.
pub struct OpencodeConfig {
    pub schema: String,
    pub provider: Vec<(String, OpencodeProvider)>,
}

/// The most tokens a model may answer with, as opencode is told.
pub const OPENCODE_OUTPUT_LIMIT: usize = 65536;

/// The address of the daemon's gateway on `port`.
pub open spec fn gateway_base_uri(port: u16) -> Seq<char> {
    "http://localhost:"@ + decimal(port as nat) + "/v1"@
}

/// The opencode configuration for the daemon's models: one provider, "mll",
/// that reaches the gateway, with each configured model (keyed by its name)
/// limited to its context length.
pub fn opencode_config(config: &Config) -> (oc: OpencodeConfig)
    ensures
        oc.schema@ == "https://opencode.ai/config.json"@,
        oc.provider@.len() == 1,
        oc.provider@[0].0@ == "mll"@,
        oc.provider@[0].1.npm@ == "@ai-sdk/openai-compatible"@,
        oc.provider@[0].1.name@ == "MLL (Local)"@,
        oc.provider@[0].1.options.base_uri@ == gateway_base_uri(config.daemon_port),
        oc.provider@[0].1.models@.len() == config.models@.len(),
        forall|k: int| 0 <= k < config.models@.len() ==> {
            let (key, m) = #[trigger] oc.provider@[0].1.models@[k];
            &&& key@ == config.models@[k].name@
            &&& m.name@ == config.models@[k].name@
            &&& m.limit matches Some(l) && l.context == config.models@[k].max_context_tokens && l.output == OPENCODE_OUTPUT_LIMIT
        },
{
    let mut models: Vec<(String, OpencodeModel)> = Vec::new();
    let mut i: usize = 0;
    while i < config.models.len()
        invariant
            0 <= i <= config.models.len(),
            models@.len() == i,
            forall|k: int| 0 <= k < i ==> {
                let (key, m) = #[trigger] models@[k];
                &&& key@ == config.models@[k].name@
                &&& m.name@ == config.models@[k].name@
                &&& m.limit matches Some(l) && l.context == config.models@[k].max_context_tokens && l.output == OPENCODE_OUTPUT_LIMIT
            },
        decreases config.models.len() - i,
    {
        let model_config = &config.models[i];
        let opencode_model = OpencodeModel {
            name: model_config.name.clone(),
            limit: Some(OpencodeModelLimits { context: model_config.max_context_tokens, output: OPENCODE_OUTPUT_LIMIT }),
        };
        models.push((model_config.name.clone(), opencode_model));
        i = i + 1;
    }
    let mut base_uri = string_of("http://localhost:");
    push_decimal(&mut base_uri, config.daemon_port as u128);
    push_text(&mut base_uri, "/v1");
    let provider = OpencodeProvider {
        npm: string_of("@ai-sdk/openai-compatible"),
        name: string_of("MLL (Local)"),
        options: OpencodeProviderOptions { base_uri },
        models,
    };
    let mut providers: Vec<(String, OpencodeProvider)> = Vec::new();
    providers.push((string_of("mll"), provider));
    OpencodeConfig { schema: string_of("https://opencode.ai/config.json"), provider: providers }
}

} // verus!
