//! The configuration, and what the exchanges know of each symbol.
use crate::double::Double;
use crate::text::{contains_char, replace, replaced, same};
use vstd::prelude::*;

verus! {

/// The whole configuration.
#[derive(Clone, Debug)]
pub struct Config {
    pub account: Account,
    pub trading: Trading,
    pub server: Server,
}

/// The account that trades.
#[derive(Clone, Debug)]
pub struct Account {
    pub label: String,
    pub mexc_uid: String,
    pub proxy_url: String,
}

/// What is traded, and from which spreads on.
#[derive(Clone, Debug)]
pub struct Trading {
    pub symbols: Vec<String>,
    pub min_spread_pct: Double,
    pub converge_threshold_pct: Double,
    pub size_usdt: Double,
}

/// Where the dashboard listens.
#[derive(Clone, Debug)]
pub struct Server {
    pub listen: String,
}

/// What MEXC fixes for a symbol.
#[derive(Clone, Copy, Debug, PartialEq, Eq, Structural)]
pub struct Instrument {
    pub leverage: i32,
    /// In ten-thousandths of a coin.
    pub contract_size: u64,
}

/// What is fixed for a symbol, which may be given by its common name or by the name
/// that MEXC uses.
pub open spec fn instrument(sym: Seq<char>) -> Instrument {
    if sym == "NVDAUSDT"@ || sym == "NVIDIA_USDT"@ {
        Instrument { leverage: 100, contract_size: 100 }
    } else if sym == "XAGUSDT"@ || sym == "SILVER_USDT"@ {
        Instrument { leverage: 200, contract_size: 100 }
    } else if sym == "TRUMPUSDT"@ || sym == "TRUMPOFFICIAL_USDT"@ {
        Instrument { leverage: 50, contract_size: 1000 }
    } else if sym == "PUMPUSDT"@ || sym == "PUMPFUN_USDT"@ {
        Instrument { leverage: 100, contract_size: 1_000_000 }
    } else if sym == "MUUSDT"@ || sym == "MUSTOCK_USDT"@ {
        Instrument { leverage: 100, contract_size: 100 }
    } else if sym == "SNDKUSDT"@ || sym == "SNDKSTOCK_USDT"@ {
        Instrument { leverage: 50, contract_size: 10 }
    } else if sym == "INTCUSDT"@ || sym == "INTCSTOCK_USDT"@ {
        Instrument { leverage: 100, contract_size: 100 }
    } else if sym == "MSTRUSDT"@ || sym == "MSTRSTOCK_USDT"@ {
        Instrument { leverage: 100, contract_size: 100 }
    } else if sym == "TSLAUSDT"@ || sym == "TESLA_USDT"@ {
        Instrument { leverage: 100, contract_size: 100 }
    } else if sym == "AAPLUSDT"@ || sym == "AAPLSTOCK_USDT"@ {
        Instrument { leverage: 100, contract_size: 100 }
    } else if sym == "TAOUSDT"@ || sym == "TAO_USDT"@ {
        Instrument { leverage: 300, contract_size: 100 }
    } else if sym == "ASTERUSDT"@ || sym == "ASTER_USDT"@ {
        Instrument { leverage: 100, contract_size: 10_000 }
    } else if sym == "PENGUUSDT"@ || sym == "PENGU_USDT"@ {
        Instrument { leverage: 125, contract_size: 100_000 }
    } else if sym == "ZECUSDT"@ || sym == "ZEC_USDT"@ {
        Instrument { leverage: 100, contract_size: 100 }
    } else if sym == "ENAUSDT"@ || sym == "ENA_USDT"@ {
        Instrument { leverage: 200, contract_size: 100_000 }
    } else if sym == "BCHUSDT"@ || sym == "BCH_USDT"@ {
        Instrument { leverage: 200, contract_size: 100 }
    } else if sym == "LINKUSDT"@ || sym == "LINK_USDT"@ {
        Instrument { leverage: 300, contract_size: 1000 }
    } else if sym == "HYPEUSDT"@ || sym == "HYPE_USDT"@ {
        Instrument { leverage: 100, contract_size: 1000 }
    } else if sym == "UNIUSDT"@ || sym == "UNI_USDT"@ {
        Instrument { leverage: 200, contract_size: 1000 }
    } else if sym == "XLMUSDT"@ || sym == "XLM_USDT"@ {
        Instrument { leverage: 300, contract_size: 100_000 }
    } else if sym == "HBARUSDT"@ || sym == "HBAR_USDT"@ {
        Instrument { leverage: 200, contract_size: 10_000 }
    } else if sym == "XAUTUSDT"@ || sym == "XAUT_USDT"@ {
        Instrument { leverage: 1000, contract_size: 10 }
    } else if sym == "SOLUSDT"@ || sym == "SOL_USDT"@ {
        Instrument { leverage: 300, contract_size: 1000 }
    } else if sym == "XRPUSDT"@ || sym == "XRP_USDT"@ {
        Instrument { leverage: 300, contract_size: 10_000 }
    } else if sym == "SUIUSDT"@ || sym == "SUI_USDT"@ {
        Instrument { leverage: 300, contract_size: 10_000 }
    } else if sym == "DASHUSDT"@ || sym == "DASH_USDT"@ {
        Instrument { leverage: 100, contract_size: 100 }
    } else if sym == "ADAUSDT"@ || sym == "ADA_USDT"@ {
        Instrument { leverage: 300, contract_size: 10_000 }
    } else if sym == "BNBUSDT"@ || sym == "BNB_USDT"@ {
        Instrument { leverage: 200, contract_size: 100 }
    } else if sym == "LTCUSDT"@ || sym == "LTC_USDT"@ {
        Instrument { leverage: 200, contract_size: 100 }
    } else if sym == "ZENUSDT"@ || sym == "ZEN_USDT"@ {
        Instrument { leverage: 100, contract_size: 1000 }
    } else if sym == "AVAXUSDT"@ || sym == "AVAX_USDT"@ {
        Instrument { leverage: 200, contract_size: 1000 }
    } else if sym == "WLDUSDT"@ || sym == "WLD_USDT"@ {
        Instrument { leverage: 300, contract_size: 10_000 }
    } else if sym == "XMRUSDT"@ || sym == "XMR_USDT"@ {
        Instrument { leverage: 100, contract_size: 100 }
    } else if sym == "ARBUSDT"@ || sym == "ARB_USDT"@ {
        Instrument { leverage: 200, contract_size: 10_000 }
    } else if sym == "WIFUSDT"@ || sym == "WIF_USDT"@ {
        Instrument { leverage: 200, contract_size: 100_000 }
    } else if sym == "KASUSDT"@ || sym == "KAS_USDT"@ {
        Instrument { leverage: 200, contract_size: 10_000_000 }
    } else if sym == "DOGEUSDT"@ || sym == "DOGE_USDT"@ {
        Instrument { leverage: 300, contract_size: 1_000_000 }
    } else if sym == "ORDIUSDT"@ || sym == "ORDI_USDT"@ {
        Instrument { leverage: 200, contract_size: 1000 }
    } else if sym == "SIRENUSDT"@ || sym == "SIREN_USDT"@ {
        Instrument { leverage: 50, contract_size: 100_000 }
    } else if sym == "HUSDT"@ || sym == "H_USDT"@ {
        Instrument { leverage: 100, contract_size: 10_000 }
    } else if sym == "PIPPINUSDT"@ || sym == "PIPPIN_USDT"@ {
        Instrument { leverage: 50, contract_size: 100_000 }
    } else if sym == "GIGGLEUSDT"@ || sym == "GIGGLE_USDT"@ {
        Instrument { leverage: 50, contract_size: 1000 }
    } else if sym == "FHEUSDT"@ || sym == "FHE_USDT"@ {
        Instrument { leverage: 50, contract_size: 100_000 }
    } else if sym == "WLFIUSDT"@ || sym == "WLFI_USDT"@ {
        Instrument { leverage: 100, contract_size: 10_000 }
    } else if sym == "MEGAUSDT"@ || sym == "MEGA_USDT"@ {
        Instrument { leverage: 50, contract_size: 10_000 }
    } else if sym == "BLESSUSDT"@ || sym == "BLESS_USDT"@ {
        Instrument { leverage: 100, contract_size: 100_000 }
    } else if sym == "CRVUSDT"@ || sym == "CRV_USDT"@ {
        Instrument { leverage: 125, contract_size: 1000 }
    } else if sym == "XPLUSDT"@ || sym == "XPL_USDT"@ {
        Instrument { leverage: 100, contract_size: 10_000 }
    } else if sym == "ZROUSDT"@ || sym == "ZRO_USDT"@ {
        Instrument { leverage: 125, contract_size: 10_000 }
    } else if sym == "LYNUSDT"@ || sym == "LYN_USDT"@ {
        Instrument { leverage: 50, contract_size: 10_000 }
    } else if sym == "POLUSDT"@ || sym == "POL_USDT"@ {
        Instrument { leverage: 125, contract_size: 100_000 }
    } else if sym == "ETCUSDT"@ || sym == "ETC_USDT"@ {
        Instrument { leverage: 200, contract_size: 1000 }
    } else if sym == "XANUSDT"@ || sym == "XAN_USDT"@ {
        Instrument { leverage: 100, contract_size: 100_000 }
    } else if sym == "ETHFIUSDT"@ || sym == "ETHFI_USDT"@ {
        Instrument { leverage: 125, contract_size: 10_000 }
    } else if sym == "STRKUSDT"@ || sym == "STRK_USDT"@ {
        Instrument { leverage: 100, contract_size: 10_000 }
    } else if sym == "JASMYUSDT"@ || sym == "JASMY_USDT"@ {
        Instrument { leverage: 200, contract_size: 100_000 }
    } else if sym == "LIGHTUSDT"@ || sym == "LIGHT_USDT"@ {
        Instrument { leverage: 50, contract_size: 10_000 }
    } else if sym == "BTCUSDT"@ || sym == "BTC_USDT"@ {
        Instrument { leverage: 125, contract_size: 1 }
    } else if sym == "ETHUSDT"@ || sym == "ETH_USDT"@ {
        Instrument { leverage: 100, contract_size: 100 }
    } else {
        Instrument { leverage: 50, contract_size: 100 }
    }
}

/// Looks a symbol up under either name.
pub fn find_instrument(sym: &str) -> (r: Instrument)
    ensures
        r == instrument(sym@),
{
    if same(sym, "NVDAUSDT") || same(sym, "NVIDIA_USDT") {
        Instrument { leverage: 100, contract_size: 100 }
    } else if same(sym, "XAGUSDT") || same(sym, "SILVER_USDT") {
        Instrument { leverage: 200, contract_size: 100 }
    } else if same(sym, "TRUMPUSDT") || same(sym, "TRUMPOFFICIAL_USDT") {
        Instrument { leverage: 50, contract_size: 1000 }
    } else if same(sym, "PUMPUSDT") || same(sym, "PUMPFUN_USDT") {
        Instrument { leverage: 100, contract_size: 1_000_000 }
    } else if same(sym, "MUUSDT") || same(sym, "MUSTOCK_USDT") {
        Instrument { leverage: 100, contract_size: 100 }
    } else if same(sym, "SNDKUSDT") || same(sym, "SNDKSTOCK_USDT") {
        Instrument { leverage: 50, contract_size: 10 }
    } else if same(sym, "INTCUSDT") || same(sym, "INTCSTOCK_USDT") {
        Instrument { leverage: 100, contract_size: 100 }
    } else if same(sym, "MSTRUSDT") || same(sym, "MSTRSTOCK_USDT") {
        Instrument { leverage: 100, contract_size: 100 }
    } else if same(sym, "TSLAUSDT") || same(sym, "TESLA_USDT") {
        Instrument { leverage: 100, contract_size: 100 }
    } else if same(sym, "AAPLUSDT") || same(sym, "AAPLSTOCK_USDT") {
        Instrument { leverage: 100, contract_size: 100 }
    } else if same(sym, "TAOUSDT") || same(sym, "TAO_USDT") {
        Instrument { leverage: 300, contract_size: 100 }
    } else if same(sym, "ASTERUSDT") || same(sym, "ASTER_USDT") {
        Instrument { leverage: 100, contract_size: 10_000 }
    } else if same(sym, "PENGUUSDT") || same(sym, "PENGU_USDT") {
        Instrument { leverage: 125, contract_size: 100_000 }
    } else if same(sym, "ZECUSDT") || same(sym, "ZEC_USDT") {
        Instrument { leverage: 100, contract_size: 100 }
    } else if same(sym, "ENAUSDT") || same(sym, "ENA_USDT") {
        Instrument { leverage: 200, contract_size: 100_000 }
    } else if same(sym, "BCHUSDT") || same(sym, "BCH_USDT") {
        Instrument { leverage: 200, contract_size: 100 }
    } else if same(sym, "LINKUSDT") || same(sym, "LINK_USDT") {
        Instrument { leverage: 300, contract_size: 1000 }
    } else if same(sym, "HYPEUSDT") || same(sym, "HYPE_USDT") {
        Instrument { leverage: 100, contract_size: 1000 }
    } else if same(sym, "UNIUSDT") || same(sym, "UNI_USDT") {
        Instrument { leverage: 200, contract_size: 1000 }
    } else if same(sym, "XLMUSDT") || same(sym, "XLM_USDT") {
        Instrument { leverage: 300, contract_size: 100_000 }
    } else if same(sym, "HBARUSDT") || same(sym, "HBAR_USDT") {
        Instrument { leverage: 200, contract_size: 10_000 }
    } else if same(sym, "XAUTUSDT") || same(sym, "XAUT_USDT") {
        Instrument { leverage: 1000, contract_size: 10 }
    } else if same(sym, "SOLUSDT") || same(sym, "SOL_USDT") {
        Instrument { leverage: 300, contract_size: 1000 }
    } else if same(sym, "XRPUSDT") || same(sym, "XRP_USDT") {
        Instrument { leverage: 300, contract_size: 10_000 }
    } else if same(sym, "SUIUSDT") || same(sym, "SUI_USDT") {
        Instrument { leverage: 300, contract_size: 10_000 }
    } else if same(sym, "DASHUSDT") || same(sym, "DASH_USDT") {
        Instrument { leverage: 100, contract_size: 100 }
    } else if same(sym, "ADAUSDT") || same(sym, "ADA_USDT") {
        Instrument { leverage: 300, contract_size: 10_000 }
    } else if same(sym, "BNBUSDT") || same(sym, "BNB_USDT") {
        Instrument { leverage: 200, contract_size: 100 }
    } else if same(sym, "LTCUSDT") || same(sym, "LTC_USDT") {
        Instrument { leverage: 200, contract_size: 100 }
    } else if same(sym, "ZENUSDT") || same(sym, "ZEN_USDT") {
        Instrument { leverage: 100, contract_size: 1000 }
    } else if same(sym, "AVAXUSDT") || same(sym, "AVAX_USDT") {
        Instrument { leverage: 200, contract_size: 1000 }
    } else if same(sym, "WLDUSDT") || same(sym, "WLD_USDT") {
        Instrument { leverage: 300, contract_size: 10_000 }
    } else if same(sym, "XMRUSDT") || same(sym, "XMR_USDT") {
        Instrument { leverage: 100, contract_size: 100 }
    } else if same(sym, "ARBUSDT") || same(sym, "ARB_USDT") {
        Instrument { leverage: 200, contract_size: 10_000 }
    } else if same(sym, "WIFUSDT") || same(sym, "WIF_USDT") {
        Instrument { leverage: 200, contract_size: 100_000 }
    } else if same(sym, "KASUSDT") || same(sym, "KAS_USDT") {
        Instrument { leverage: 200, contract_size: 10_000_000 }
    } else if same(sym, "DOGEUSDT") || same(sym, "DOGE_USDT") {
        Instrument { leverage: 300, contract_size: 1_000_000 }
    } else if same(sym, "ORDIUSDT") || same(sym, "ORDI_USDT") {
        Instrument { leverage: 200, contract_size: 1000 }
    } else if same(sym, "SIRENUSDT") || same(sym, "SIREN_USDT") {
        Instrument { leverage: 50, contract_size: 100_000 }
    } else if same(sym, "HUSDT") || same(sym, "H_USDT") {
        Instrument { leverage: 100, contract_size: 10_000 }
    } else if same(sym, "PIPPINUSDT") || same(sym, "PIPPIN_USDT") {
        Instrument { leverage: 50, contract_size: 100_000 }
    } else if same(sym, "GIGGLEUSDT") || same(sym, "GIGGLE_USDT") {
        Instrument { leverage: 50, contract_size: 1000 }
    } else if same(sym, "FHEUSDT") || same(sym, "FHE_USDT") {
        Instrument { leverage: 50, contract_size: 100_000 }
    } else if same(sym, "WLFIUSDT") || same(sym, "WLFI_USDT") {
        Instrument { leverage: 100, contract_size: 10_000 }
    } else if same(sym, "MEGAUSDT") || same(sym, "MEGA_USDT") {
        Instrument { leverage: 50, contract_size: 10_000 }
    } else if same(sym, "BLESSUSDT") || same(sym, "BLESS_USDT") {
        Instrument { leverage: 100, contract_size: 100_000 }
    } else if same(sym, "CRVUSDT") || same(sym, "CRV_USDT") {
        Instrument { leverage: 125, contract_size: 1000 }
    } else if same(sym, "XPLUSDT") || same(sym, "XPL_USDT") {
        Instrument { leverage: 100, contract_size: 10_000 }
    } else if same(sym, "ZROUSDT") || same(sym, "ZRO_USDT") {
        Instrument { leverage: 125, contract_size: 10_000 }
    } else if same(sym, "LYNUSDT") || same(sym, "LYN_USDT") {
        Instrument { leverage: 50, contract_size: 10_000 }
    } else if same(sym, "POLUSDT") || same(sym, "POL_USDT") {
        Instrument { leverage: 125, contract_size: 100_000 }
    } else if same(sym, "ETCUSDT") || same(sym, "ETC_USDT") {
        Instrument { leverage: 200, contract_size: 1000 }
    } else if same(sym, "XANUSDT") || same(sym, "XAN_USDT") {
        Instrument { leverage: 100, contract_size: 100_000 }
    } else if same(sym, "ETHFIUSDT") || same(sym, "ETHFI_USDT") {
        Instrument { leverage: 125, contract_size: 10_000 }
    } else if same(sym, "STRKUSDT") || same(sym, "STRK_USDT") {
        Instrument { leverage: 100, contract_size: 10_000 }
    } else if same(sym, "JASMYUSDT") || same(sym, "JASMY_USDT") {
        Instrument { leverage: 200, contract_size: 100_000 }
    } else if same(sym, "LIGHTUSDT") || same(sym, "LIGHT_USDT") {
        Instrument { leverage: 50, contract_size: 10_000 }
    } else if same(sym, "BTCUSDT") || same(sym, "BTC_USDT") {
        Instrument { leverage: 125, contract_size: 1 }
    } else if same(sym, "ETHUSDT") || same(sym, "ETH_USDT") {
        Instrument { leverage: 100, contract_size: 100 }
    } else {
        Instrument { leverage: 50, contract_size: 100 }
    }
}

/// The size of a contract, in ten-thousandths of a coin.
pub fn contract_size(sym: &str) -> (r: u64)
    ensures
        r == instrument(sym@).contract_size,
{
    find_instrument(sym).contract_size
}

/// The leverage that is used for a symbol.
pub fn leverage(sym: &str) -> (r: i32)
    ensures
        r == instrument(sym@).leverage,
{
    find_instrument(sym).leverage
}

/// The name that MEXC uses, for the symbols that it names differently.
pub open spec fn renamed(sym: Seq<char>) -> Option<Seq<char>> {
    if sym == "NVDAUSDT"@ {
        Some("NVIDIA_USDT"@)
    } else if sym == "XAGUSDT"@ {
        Some("SILVER_USDT"@)
    } else if sym == "TRUMPUSDT"@ {
        Some("TRUMPOFFICIAL_USDT"@)
    } else if sym == "PUMPUSDT"@ {
        Some("PUMPFUN_USDT"@)
    } else if sym == "MUUSDT"@ {
        Some("MUSTOCK_USDT"@)
    } else if sym == "SNDKUSDT"@ {
        Some("SNDKSTOCK_USDT"@)
    } else if sym == "INTCUSDT"@ {
        Some("INTCSTOCK_USDT"@)
    } else if sym == "MSTRUSDT"@ {
        Some("MSTRSTOCK_USDT"@)
    } else if sym == "TSLAUSDT"@ {
        Some("TESLA_USDT"@)
    } else if sym == "AAPLUSDT"@ {
        Some("AAPLSTOCK_USDT"@)
    } else {
        None
    }
}

/// The name of a symbol on MEXC.
pub open spec fn mexc_name(sym: Seq<char>) -> Seq<char> {
    match renamed(sym) {
        Some(name) => name,
        None => if sym.contains('_') {
            sym
        } else {
            replaced(sym, "USDT"@, "_USDT"@)
        },
    }
}

/// The name of a symbol on MEXC.
pub fn to_mexc_symbol(sym: &str) -> (r: String)
    ensures
        r@ == mexc_name(sym@),
{
    if same(sym, "NVDAUSDT") {
        "NVIDIA_USDT".to_string()
    } else if same(sym, "XAGUSDT") {
        "SILVER_USDT".to_string()
    } else if same(sym, "TRUMPUSDT") {
        "TRUMPOFFICIAL_USDT".to_string()
    } else if same(sym, "PUMPUSDT") {
        "PUMPFUN_USDT".to_string()
    } else if same(sym, "MUUSDT") {
        "MUSTOCK_USDT".to_string()
    } else if same(sym, "SNDKUSDT") {
        "SNDKSTOCK_USDT".to_string()
    } else if same(sym, "INTCUSDT") {
        "INTCSTOCK_USDT".to_string()
    } else if same(sym, "MSTRUSDT") {
        "MSTRSTOCK_USDT".to_string()
    } else if same(sym, "TSLAUSDT") {
        "TESLA_USDT".to_string()
    } else if same(sym, "AAPLUSDT") {
        "AAPLSTOCK_USDT".to_string()
    } else if contains_char(sym, '_') {
        sym.to_string()
    } else {
        proof {
            reveal_strlit("USDT");
        }
        replace(sym, "USDT", "_USDT")
    }
}

} // verus!
