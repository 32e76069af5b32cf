//! Account hub helpers: service address handling, status summaries,
//! registration payload assembly, settings and RPC reply handling.

pub mod addr;
pub mod register;
pub mod rpc;
pub mod settings;
pub mod status;
pub mod text;

pub use addr::{build_rpc_url, normalize_service_addr, register_api_url};
pub use register::{
    build_register_payload, duckmail_accounts_text, generate_duckmail_accounts, DuckMailGenerateInput,
    DuckMailInput, DuckMailSettings, RegisterInput, RegisterPayload,
};
pub use rpc::{rpc_step, RpcAction, RpcEvent, RpcResultFacts};
pub use settings::{
    front_proxy_disabled, resolve_default_rpc_token_path, resolve_hub_addr, resolve_register_base_url,
    resolve_rpc_token, resolve_service_addr, rpc_token_from_file, setting_value, RpcTokenSource,
};
pub use status::{summarize_statuses, StatusSummary};
