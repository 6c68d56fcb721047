use arb::config::{contract_size, leverage, to_mexc_symbol};
use arb::mexc::ws_public::from_mexc_symbol;

/// A symbol, its name on MEXC, the size of a contract and the leverage.
const KNOWN: [(&str, &str, f64, i32); 59] = [
    ("TAOUSDT", "TAO_USDT", 0.01, 300),
    ("ASTERUSDT", "ASTER_USDT", 1.0, 100),
    ("PENGUUSDT", "PENGU_USDT", 10.0, 125),
    ("ZECUSDT", "ZEC_USDT", 0.01, 100),
    ("ENAUSDT", "ENA_USDT", 10.0, 200),
    ("NVDAUSDT", "NVIDIA_USDT", 0.01, 100),
    ("BCHUSDT", "BCH_USDT", 0.01, 200),
    ("LINKUSDT", "LINK_USDT", 0.1, 300),
    ("HYPEUSDT", "HYPE_USDT", 0.1, 100),
    ("UNIUSDT", "UNI_USDT", 0.1, 200),
    ("XLMUSDT", "XLM_USDT", 10.0, 300),
    ("HBARUSDT", "HBAR_USDT", 1.0, 200),
    ("XAUTUSDT", "XAUT_USDT", 0.001, 1000),
    ("XAGUSDT", "SILVER_USDT", 0.01, 200),
    ("SOLUSDT", "SOL_USDT", 0.1, 300),
    ("XRPUSDT", "XRP_USDT", 1.0, 300),
    ("SUIUSDT", "SUI_USDT", 1.0, 300),
    ("DASHUSDT", "DASH_USDT", 0.01, 100),
    ("ADAUSDT", "ADA_USDT", 1.0, 300),
    ("BNBUSDT", "BNB_USDT", 0.01, 200),
    ("LTCUSDT", "LTC_USDT", 0.01, 200),
    ("ZENUSDT", "ZEN_USDT", 0.1, 100),
    ("AVAXUSDT", "AVAX_USDT", 0.1, 200),
    ("WLDUSDT", "WLD_USDT", 1.0, 300),
    ("XMRUSDT", "XMR_USDT", 0.01, 100),
    ("ARBUSDT", "ARB_USDT", 1.0, 200),
    ("WIFUSDT", "WIF_USDT", 10.0, 200),
    ("KASUSDT", "KAS_USDT", 1000.0, 200),
    ("TRUMPUSDT", "TRUMPOFFICIAL_USDT", 0.1, 50),
    ("DOGEUSDT", "DOGE_USDT", 100.0, 300),
    ("ORDIUSDT", "ORDI_USDT", 0.1, 200),
    ("SIRENUSDT", "SIREN_USDT", 10.0, 50),
    ("PUMPUSDT", "PUMPFUN_USDT", 100.0, 100),
    ("HUSDT", "H_USDT", 1.0, 100),
    ("PIPPINUSDT", "PIPPIN_USDT", 10.0, 50),
    ("MUUSDT", "MUSTOCK_USDT", 0.01, 100),
    ("SNDKUSDT", "SNDKSTOCK_USDT", 0.001, 50),
    ("GIGGLEUSDT", "GIGGLE_USDT", 0.1, 50),
    ("FHEUSDT", "FHE_USDT", 10.0, 50),
    ("WLFIUSDT", "WLFI_USDT", 1.0, 100),
    ("MEGAUSDT", "MEGA_USDT", 1.0, 50),
    ("BLESSUSDT", "BLESS_USDT", 10.0, 100),
    ("CRVUSDT", "CRV_USDT", 0.1, 125),
    ("XPLUSDT", "XPL_USDT", 1.0, 100),
    ("ZROUSDT", "ZRO_USDT", 1.0, 125),
    ("LYNUSDT", "LYN_USDT", 1.0, 50),
    ("POLUSDT", "POL_USDT", 10.0, 125),
    ("INTCUSDT", "INTCSTOCK_USDT", 0.01, 100),
    ("ETCUSDT", "ETC_USDT", 0.1, 200),
    ("XANUSDT", "XAN_USDT", 10.0, 100),
    ("ETHFIUSDT", "ETHFI_USDT", 1.0, 125),
    ("MSTRUSDT", "MSTRSTOCK_USDT", 0.01, 100),
    ("STRKUSDT", "STRK_USDT", 1.0, 100),
    ("TSLAUSDT", "TESLA_USDT", 0.01, 100),
    ("JASMYUSDT", "JASMY_USDT", 10.0, 200),
    ("LIGHTUSDT", "LIGHT_USDT", 1.0, 50),
    ("AAPLUSDT", "AAPLSTOCK_USDT", 0.01, 100),
    ("BTCUSDT", "BTC_USDT", 0.0001, 125),
    ("ETHUSDT", "ETH_USDT", 0.01, 100),
];

#[test]
fn contract_sizes() {
    for (name, mexc, size, _) in KNOWN {
        assert_eq!(contract_size(name) as f64 / 10_000.0, size, "{}", name);
        assert_eq!(contract_size(mexc) as f64 / 10_000.0, size, "{}", mexc);
    }
    assert_eq!(contract_size("OTHERUSDT") as f64 / 10_000.0, 0.01);
    assert_eq!(contract_size("") as f64 / 10_000.0, 0.01);
}

#[test]
fn leverages() {
    for (name, mexc, _, lev) in KNOWN {
        assert_eq!(leverage(name), lev, "{}", name);
        assert_eq!(leverage(mexc), lev, "{}", mexc);
    }
    assert_eq!(leverage("OTHERUSDT"), 50);
    assert_eq!(leverage("taousdt"), 50);
}

#[test]
fn names_on_mexc() {
    for (name, mexc, _, _) in KNOWN {
        assert_eq!(to_mexc_symbol(name), mexc);
        assert_eq!(to_mexc_symbol(mexc), mexc);
    }
    assert_eq!(to_mexc_symbol("OTHERUSDT"), "OTHER_USDT");
    assert_eq!(to_mexc_symbol("USDTUSDT"), "_USDT_USDT");
    assert_eq!(to_mexc_symbol("A_BUSDT"), "A_BUSDT");
    assert_eq!(to_mexc_symbol("BTC"), "BTC");
    assert_eq!(to_mexc_symbol(""), "");
}

#[test]
fn names_come_back_unless_they_are_renamed() {
    let mut renamed = 0;
    for (name, mexc, _, _) in KNOWN {
        if mexc == name.replace("USDT", "_USDT") {
            assert_eq!(from_mexc_symbol(&to_mexc_symbol(name)), name);
        } else {
            assert_ne!(from_mexc_symbol(&to_mexc_symbol(name)), name);
            renamed += 1;
        }
    }
    assert_eq!(renamed, 10);
    assert_eq!(from_mexc_symbol("NVIDIA_USDT"), "NVIDIAUSDT");
}

#[test]
fn names_are_distinct() {
    for (a, _, _, _) in KNOWN {
        for (b, _, _, _) in KNOWN {
            assert_eq!(to_mexc_symbol(a) == to_mexc_symbol(b), a == b);
        }
    }
    assert_eq!(to_mexc_symbol("NVIDIAUSDT"), to_mexc_symbol("NVDAUSDT"));
}

#[test]
fn naming_twice_changes_nothing() {
    for (name, _, _, _) in KNOWN {
        let once = to_mexc_symbol(name);
        assert_eq!(to_mexc_symbol(&once), once);
    }
}

#[test]
fn both_names_mean_one_instrument() {
    for (name, _, _, _) in KNOWN {
        assert_eq!(leverage(&to_mexc_symbol(name)), leverage(name));
        assert_eq!(contract_size(&to_mexc_symbol(name)), contract_size(name));
    }
}
