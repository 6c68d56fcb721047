//! How the names of a symbol on the two exchanges belong together.
use crate::config::{instrument, mexc_name, renamed};
use crate::text::{occurs, occurs_at, replaced, without};
use vstd::prelude::*;

verus! {

/// Dropping a character drops it from both parts of a text.
proof fn lemma_without_parts(a: Seq<char>, b: Seq<char>, c: char)
    ensures
        without(a + b, c) == without(a, c) + without(b, c),
    decreases b.len(),
{
    reveal(Seq::filter);
    if b.len() == 0 {
        assert(a + b =~= a);
        assert(without(a, c) + without(b, c) =~= without(a, c));
    } else {
        lemma_without_parts(a, b.drop_last(), c);
        assert((a + b).drop_last() =~= a + b.drop_last());
        if b.last() != c {
            assert((without(a, c) + without(b.drop_last(), c)).push(b.last()) =~= without(a, c)
                + without(b, c));
        }
    }
}

/// Dropping a character that does not occur changes nothing.
proof fn lemma_without_absent(s: Seq<char>, c: char)
    requires
        !s.contains(c),
    ensures
        without(s, c) == s,
    decreases s.len(),
{
    reveal(Seq::filter);
    if s.len() > 0 {
        assert(s[s.len() - 1] != c);
        assert forall|i: int| 0 <= i < s.drop_last().len() implies s.drop_last()[i] != c by {
            assert(s[i] != c);
        }
        lemma_without_absent(s.drop_last(), c);
        assert(s.drop_last().push(s.last()) =~= s);
    } else {
        assert(without(s, c) =~= s);
    }
}

/// What the common name becomes on MEXC where it is not renamed.
spec fn split_name(s: Seq<char>) -> Seq<char> {
    replaced(s, "USDT"@, "_USDT"@)
}

/// The separator is all that is added, and where none is added nothing changes.
proof fn lemma_split_name(s: Seq<char>)
    requires
        !s.contains('_'),
    ensures
        without(split_name(s), '_') == s,
        split_name(s) == s || split_name(s).contains('_'),
    decreases s.len(),
{
    reveal_strlit("USDT");
    reveal_strlit("_USDT");
    let pat = "USDT"@;
    let with = "_USDT"@;
    assert(with =~= seq!['_'] + pat);
    if s.len() == 0 {
        lemma_without_absent(s, '_');
    } else if occurs_at(s, pat, 0) {
        let rest = s.skip(pat.len() as int);
        assert forall|i: int| 0 <= i < rest.len() implies rest[i] != '_' by {
            assert(s[i + pat.len()] != '_');
        }
        lemma_split_name(rest);
        lemma_without_parts(with, split_name(rest), '_');
        lemma_without_parts(seq!['_'], pat, '_');
        assert(without(seq!['_'], '_') =~= Seq::<char>::empty()) by {
            reveal_with_fuel(Seq::filter, 2);
        }
        assert(!pat.contains('_'));
        lemma_without_absent(pat, '_');
        assert(without(with, '_') =~= pat);
        assert(s =~= pat + rest) by {
            assert(s.subrange(0, pat.len() as int) == pat);
            assert(s =~= s.subrange(0, pat.len() as int) + rest);
        }
        assert(split_name(s)[0] == '_');
    } else {
        let rest = s.skip(1);
        assert(s[0] != '_');
        assert forall|i: int| 0 <= i < rest.len() implies rest[i] != '_' by {
            assert(s[i + 1] != '_');
        }
        lemma_split_name(rest);
        lemma_without_parts(seq![s[0]], split_name(rest), '_');
        assert(without(seq![s[0]], '_') =~= seq![s[0]]) by {
            reveal_with_fuel(Seq::filter, 2);
        }
        assert(s =~= seq![s[0]] + rest);
        if split_name(rest) != rest {
            let i = choose|i: int| 0 <= i < split_name(rest).len() && split_name(rest)[i] == '_';
            assert(split_name(s)[i + 1] == '_');
        }
    }
}

/// The symbols that MEXC names differently have no separator, and their names there
/// have one.
proof fn lemma_renamed(sym: Seq<char>)
    ensures
        sym.contains('_') ==> renamed(sym) is None,
        renamed(sym) matches Some(name) ==> name.contains('_'),
{
    reveal_strlit("NVDAUSDT");
    reveal_strlit("NVIDIA_USDT");
    reveal_strlit("XAGUSDT");
    reveal_strlit("SILVER_USDT");
    reveal_strlit("TRUMPUSDT");
    reveal_strlit("TRUMPOFFICIAL_USDT");
    reveal_strlit("PUMPUSDT");
    reveal_strlit("PUMPFUN_USDT");
    reveal_strlit("MUUSDT");
    reveal_strlit("MUSTOCK_USDT");
    reveal_strlit("SNDKUSDT");
    reveal_strlit("SNDKSTOCK_USDT");
    reveal_strlit("INTCUSDT");
    reveal_strlit("INTCSTOCK_USDT");
    reveal_strlit("MSTRUSDT");
    reveal_strlit("MSTRSTOCK_USDT");
    reveal_strlit("TSLAUSDT");
    reveal_strlit("TESLA_USDT");
    reveal_strlit("AAPLUSDT");
    reveal_strlit("AAPLSTOCK_USDT");
    assert("NVIDIA_USDT"@[6] == '_');
    assert("SILVER_USDT"@[6] == '_');
    assert("TRUMPOFFICIAL_USDT"@[13] == '_');
    assert("PUMPFUN_USDT"@[7] == '_');
    assert("MUSTOCK_USDT"@[7] == '_');
    assert("SNDKSTOCK_USDT"@[9] == '_');
    assert("INTCSTOCK_USDT"@[9] == '_');
    assert("MSTRSTOCK_USDT"@[9] == '_');
    assert("TESLA_USDT"@[5] == '_');
    assert("AAPLSTOCK_USDT"@[9] == '_');
}

/// A name on MEXC, without its separator, is the common name again, for every symbol
/// that has no separator of its own and that MEXC does not rename.
pub proof fn law_names_round_trip(sym: Seq<char>)
    requires
        !sym.contains('_'),
        renamed(sym) is None,
    ensures
        without(mexc_name(sym), '_') == sym,
{
    lemma_split_name(sym);
}

/// A name on MEXC is its own name on MEXC.
pub proof fn law_naming_twice_changes_nothing(sym: Seq<char>)
    ensures
        mexc_name(mexc_name(sym)) == mexc_name(sym),
{
    lemma_renamed(sym);
    lemma_renamed(mexc_name(sym));
    if renamed(sym) is None && !sym.contains('_') {
        lemma_split_name(sym);
    }
}

/// A name that ends in `USDT`, and holds no other `USD`, is split there.
proof fn lemma_split_at_the_end(base: Seq<char>)
    requires
        forall|i: int|
            0 <= i < base.len() - 2 ==> !(#[trigger] base[i] == 'U' && base[i + 1] == 'S' && base[i
                + 2] == 'D'),
    ensures
        split_name(base + "USDT"@) == base + "_USDT"@,
    decreases base.len(),
{
    reveal_strlit("USDT");
    reveal_strlit("_USDT");
    let pat = "USDT"@;
    let s = base + pat;
    if base.len() == 0 {
        reveal_with_fuel(replaced, 2);
        assert(s.subrange(0, pat.len() as int) =~= pat);
        assert(s.skip(pat.len() as int) =~= Seq::<char>::empty());
        assert(split_name(s) =~= base + "_USDT"@);
    } else {
        if occurs_at(s, pat, 0) {
            assert(s.subrange(0, pat.len() as int)[0] == 'U');
            assert(s.subrange(0, pat.len() as int)[1] == 'S');
            assert(base[0] == 'U');
            assert(s[1] == 'S');
            assert(s.subrange(0, pat.len() as int)[2] == 'D');
        }
        assert(!occurs_at(s, pat, 0));
        assert(s.skip(1) =~= base.skip(1) + pat);
        lemma_split_at_the_end(base.skip(1));
        assert(split_name(s) =~= base + "_USDT"@);
    }
}

/// `u` is split into `m`.
spec fn splits(u: Seq<char>, m: Seq<char>) -> bool {
    !u.contains('_') && m.contains('_') && split_name(u) == m
}

/// A pair of names that belong together stays together when a name is split.
proof fn lemma_pair_is_kept(s: Seq<char>, u: Seq<char>, m: Seq<char>)
    requires
        !s.contains('_'),
        splits(u, m),
    ensures
        (s == u || s == m) <==> (split_name(s) == u || split_name(s) == m),
{
    lemma_split_name(s);
    lemma_split_name(u);
}

/// A name that ends in `USDT`, and holds no other `USD`, is split into the name with a
/// separator there.
proof fn lemma_splits(u: Seq<char>, m: Seq<char>)
    requires
        u.len() >= 4,
        m.len() == u.len() + 1,
        forall|i: int| 0 <= i < u.len() - 4 ==> #[trigger] u[i] == m[i] && u[i] != '_',
        forall|i: int|
            0 <= i < u.len() - 6 ==> !(#[trigger] u[i] == 'U' && u[i + 1] == 'S' && u[i + 2] == 'D'),
        u[u.len() - 4] == 'U' && u[u.len() - 3] == 'S' && u[u.len() - 2] == 'D' && u.last() == 'T',
        m[m.len() - 5] == '_' && m[m.len() - 4] == 'U' && m[m.len() - 3] == 'S' && m[m.len() - 2]
            == 'D' && m.last() == 'T',
    ensures
        splits(u, m),
{
    reveal_strlit("USDT");
    reveal_strlit("_USDT");
    let base = u.take(u.len() - 4);
    assert(u =~= base + "USDT"@);
    assert(m =~= base + "_USDT"@);
    lemma_split_at_the_end(base);
    assert(m[base.len() as int] == '_');
    assert forall|i: int| 0 <= i < u.len() implies u[i] != '_' by {
        if i >= base.len() {
            assert(u[i] == "USDT"@[i - base.len()]);
        }
    }
}

proof fn lemma_splits_1()
    ensures
        splits("TAOUSDT"@, "TAO_USDT"@),
        splits("ASTERUSDT"@, "ASTER_USDT"@),
        splits("PENGUUSDT"@, "PENGU_USDT"@),
        splits("ZECUSDT"@, "ZEC_USDT"@),
        splits("ENAUSDT"@, "ENA_USDT"@),
        splits("BCHUSDT"@, "BCH_USDT"@),
        splits("LINKUSDT"@, "LINK_USDT"@),
        splits("HYPEUSDT"@, "HYPE_USDT"@),
{
    assert(splits("TAOUSDT"@, "TAO_USDT"@)) by {
        reveal_strlit("TAOUSDT");
        reveal_strlit("TAO_USDT");
        lemma_splits("TAOUSDT"@, "TAO_USDT"@);
    }
    assert(splits("ASTERUSDT"@, "ASTER_USDT"@)) by {
        reveal_strlit("ASTERUSDT");
        reveal_strlit("ASTER_USDT");
        lemma_splits("ASTERUSDT"@, "ASTER_USDT"@);
    }
    assert(splits("PENGUUSDT"@, "PENGU_USDT"@)) by {
        reveal_strlit("PENGUUSDT");
        reveal_strlit("PENGU_USDT");
        lemma_splits("PENGUUSDT"@, "PENGU_USDT"@);
    }
    assert(splits("ZECUSDT"@, "ZEC_USDT"@)) by {
        reveal_strlit("ZECUSDT");
        reveal_strlit("ZEC_USDT");
        lemma_splits("ZECUSDT"@, "ZEC_USDT"@);
    }
    assert(splits("ENAUSDT"@, "ENA_USDT"@)) by {
        reveal_strlit("ENAUSDT");
        reveal_strlit("ENA_USDT");
        lemma_splits("ENAUSDT"@, "ENA_USDT"@);
    }
    assert(splits("BCHUSDT"@, "BCH_USDT"@)) by {
        reveal_strlit("BCHUSDT");
        reveal_strlit("BCH_USDT");
        lemma_splits("BCHUSDT"@, "BCH_USDT"@);
    }
    assert(splits("LINKUSDT"@, "LINK_USDT"@)) by {
        reveal_strlit("LINKUSDT");
        reveal_strlit("LINK_USDT");
        lemma_splits("LINKUSDT"@, "LINK_USDT"@);
    }
    assert(splits("HYPEUSDT"@, "HYPE_USDT"@)) by {
        reveal_strlit("HYPEUSDT");
        reveal_strlit("HYPE_USDT");
        lemma_splits("HYPEUSDT"@, "HYPE_USDT"@);
    }
}

proof fn lemma_splits_2()
    ensures
        splits("UNIUSDT"@, "UNI_USDT"@),
        splits("XLMUSDT"@, "XLM_USDT"@),
        splits("HBARUSDT"@, "HBAR_USDT"@),
        splits("XAUTUSDT"@, "XAUT_USDT"@),
        splits("SOLUSDT"@, "SOL_USDT"@),
        splits("XRPUSDT"@, "XRP_USDT"@),
        splits("SUIUSDT"@, "SUI_USDT"@),
        splits("DASHUSDT"@, "DASH_USDT"@),
{
    assert(splits("UNIUSDT"@, "UNI_USDT"@)) by {
        reveal_strlit("UNIUSDT");
        reveal_strlit("UNI_USDT");
        lemma_splits("UNIUSDT"@, "UNI_USDT"@);
    }
    assert(splits("XLMUSDT"@, "XLM_USDT"@)) by {
        reveal_strlit("XLMUSDT");
        reveal_strlit("XLM_USDT");
        lemma_splits("XLMUSDT"@, "XLM_USDT"@);
    }
    assert(splits("HBARUSDT"@, "HBAR_USDT"@)) by {
        reveal_strlit("HBARUSDT");
        reveal_strlit("HBAR_USDT");
        lemma_splits("HBARUSDT"@, "HBAR_USDT"@);
    }
    assert(splits("XAUTUSDT"@, "XAUT_USDT"@)) by {
        reveal_strlit("XAUTUSDT");
        reveal_strlit("XAUT_USDT");
        lemma_splits("XAUTUSDT"@, "XAUT_USDT"@);
    }
    assert(splits("SOLUSDT"@, "SOL_USDT"@)) by {
        reveal_strlit("SOLUSDT");
        reveal_strlit("SOL_USDT");
        lemma_splits("SOLUSDT"@, "SOL_USDT"@);
    }
    assert(splits("XRPUSDT"@, "XRP_USDT"@)) by {
        reveal_strlit("XRPUSDT");
        reveal_strlit("XRP_USDT");
        lemma_splits("XRPUSDT"@, "XRP_USDT"@);
    }
    assert(splits("SUIUSDT"@, "SUI_USDT"@)) by {
        reveal_strlit("SUIUSDT");
        reveal_strlit("SUI_USDT");
        lemma_splits("SUIUSDT"@, "SUI_USDT"@);
    }
    assert(splits("DASHUSDT"@, "DASH_USDT"@)) by {
        reveal_strlit("DASHUSDT");
        reveal_strlit("DASH_USDT");
        lemma_splits("DASHUSDT"@, "DASH_USDT"@);
    }
}

proof fn lemma_splits_3()
    ensures
        splits("ADAUSDT"@, "ADA_USDT"@),
        splits("BNBUSDT"@, "BNB_USDT"@),
        splits("LTCUSDT"@, "LTC_USDT"@),
        splits("ZENUSDT"@, "ZEN_USDT"@),
        splits("AVAXUSDT"@, "AVAX_USDT"@),
        splits("WLDUSDT"@, "WLD_USDT"@),
        splits("XMRUSDT"@, "XMR_USDT"@),
        splits("ARBUSDT"@, "ARB_USDT"@),
{
    assert(splits("ADAUSDT"@, "ADA_USDT"@)) by {
        reveal_strlit("ADAUSDT");
        reveal_strlit("ADA_USDT");
        lemma_splits("ADAUSDT"@, "ADA_USDT"@);
    }
    assert(splits("BNBUSDT"@, "BNB_USDT"@)) by {
        reveal_strlit("BNBUSDT");
        reveal_strlit("BNB_USDT");
        lemma_splits("BNBUSDT"@, "BNB_USDT"@);
    }
    assert(splits("LTCUSDT"@, "LTC_USDT"@)) by {
        reveal_strlit("LTCUSDT");
        reveal_strlit("LTC_USDT");
        lemma_splits("LTCUSDT"@, "LTC_USDT"@);
    }
    assert(splits("ZENUSDT"@, "ZEN_USDT"@)) by {
        reveal_strlit("ZENUSDT");
        reveal_strlit("ZEN_USDT");
        lemma_splits("ZENUSDT"@, "ZEN_USDT"@);
    }
    assert(splits("AVAXUSDT"@, "AVAX_USDT"@)) by {
        reveal_strlit("AVAXUSDT");
        reveal_strlit("AVAX_USDT");
        lemma_splits("AVAXUSDT"@, "AVAX_USDT"@);
    }
    assert(splits("WLDUSDT"@, "WLD_USDT"@)) by {
        reveal_strlit("WLDUSDT");
        reveal_strlit("WLD_USDT");
        lemma_splits("WLDUSDT"@, "WLD_USDT"@);
    }
    assert(splits("XMRUSDT"@, "XMR_USDT"@)) by {
        reveal_strlit("XMRUSDT");
        reveal_strlit("XMR_USDT");
        lemma_splits("XMRUSDT"@, "XMR_USDT"@);
    }
    assert(splits("ARBUSDT"@, "ARB_USDT"@)) by {
        reveal_strlit("ARBUSDT");
        reveal_strlit("ARB_USDT");
        lemma_splits("ARBUSDT"@, "ARB_USDT"@);
    }
}

proof fn lemma_splits_4()
    ensures
        splits("WIFUSDT"@, "WIF_USDT"@),
        splits("KASUSDT"@, "KAS_USDT"@),
        splits("DOGEUSDT"@, "DOGE_USDT"@),
        splits("ORDIUSDT"@, "ORDI_USDT"@),
        splits("SIRENUSDT"@, "SIREN_USDT"@),
        splits("HUSDT"@, "H_USDT"@),
        splits("PIPPINUSDT"@, "PIPPIN_USDT"@),
        splits("GIGGLEUSDT"@, "GIGGLE_USDT"@),
{
    assert(splits("WIFUSDT"@, "WIF_USDT"@)) by {
        reveal_strlit("WIFUSDT");
        reveal_strlit("WIF_USDT");
        lemma_splits("WIFUSDT"@, "WIF_USDT"@);
    }
    assert(splits("KASUSDT"@, "KAS_USDT"@)) by {
        reveal_strlit("KASUSDT");
        reveal_strlit("KAS_USDT");
        lemma_splits("KASUSDT"@, "KAS_USDT"@);
    }
    assert(splits("DOGEUSDT"@, "DOGE_USDT"@)) by {
        reveal_strlit("DOGEUSDT");
        reveal_strlit("DOGE_USDT");
        lemma_splits("DOGEUSDT"@, "DOGE_USDT"@);
    }
    assert(splits("ORDIUSDT"@, "ORDI_USDT"@)) by {
        reveal_strlit("ORDIUSDT");
        reveal_strlit("ORDI_USDT");
        lemma_splits("ORDIUSDT"@, "ORDI_USDT"@);
    }
    assert(splits("SIRENUSDT"@, "SIREN_USDT"@)) by {
        reveal_strlit("SIRENUSDT");
        reveal_strlit("SIREN_USDT");
        lemma_splits("SIRENUSDT"@, "SIREN_USDT"@);
    }
    assert(splits("HUSDT"@, "H_USDT"@)) by {
        reveal_strlit("HUSDT");
        reveal_strlit("H_USDT");
        lemma_splits("HUSDT"@, "H_USDT"@);
    }
    assert(splits("PIPPINUSDT"@, "PIPPIN_USDT"@)) by {
        reveal_strlit("PIPPINUSDT");
        reveal_strlit("PIPPIN_USDT");
        lemma_splits("PIPPINUSDT"@, "PIPPIN_USDT"@);
    }
    assert(splits("GIGGLEUSDT"@, "GIGGLE_USDT"@)) by {
        reveal_strlit("GIGGLEUSDT");
        reveal_strlit("GIGGLE_USDT");
        lemma_splits("GIGGLEUSDT"@, "GIGGLE_USDT"@);
    }
}

proof fn lemma_splits_5()
    ensures
        splits("FHEUSDT"@, "FHE_USDT"@),
        splits("WLFIUSDT"@, "WLFI_USDT"@),
        splits("MEGAUSDT"@, "MEGA_USDT"@),
        splits("BLESSUSDT"@, "BLESS_USDT"@),
        splits("CRVUSDT"@, "CRV_USDT"@),
        splits("XPLUSDT"@, "XPL_USDT"@),
        splits("ZROUSDT"@, "ZRO_USDT"@),
        splits("LYNUSDT"@, "LYN_USDT"@),
{
    assert(splits("FHEUSDT"@, "FHE_USDT"@)) by {
        reveal_strlit("FHEUSDT");
        reveal_strlit("FHE_USDT");
        lemma_splits("FHEUSDT"@, "FHE_USDT"@);
    }
    assert(splits("WLFIUSDT"@, "WLFI_USDT"@)) by {
        reveal_strlit("WLFIUSDT");
        reveal_strlit("WLFI_USDT");
        lemma_splits("WLFIUSDT"@, "WLFI_USDT"@);
    }
    assert(splits("MEGAUSDT"@, "MEGA_USDT"@)) by {
        reveal_strlit("MEGAUSDT");
        reveal_strlit("MEGA_USDT");
        lemma_splits("MEGAUSDT"@, "MEGA_USDT"@);
    }
    assert(splits("BLESSUSDT"@, "BLESS_USDT"@)) by {
        reveal_strlit("BLESSUSDT");
        reveal_strlit("BLESS_USDT");
        lemma_splits("BLESSUSDT"@, "BLESS_USDT"@);
    }
    assert(splits("CRVUSDT"@, "CRV_USDT"@)) by {
        reveal_strlit("CRVUSDT");
        reveal_strlit("CRV_USDT");
        lemma_splits("CRVUSDT"@, "CRV_USDT"@);
    }
    assert(splits("XPLUSDT"@, "XPL_USDT"@)) by {
        reveal_strlit("XPLUSDT");
        reveal_strlit("XPL_USDT");
        lemma_splits("XPLUSDT"@, "XPL_USDT"@);
    }
    assert(splits("ZROUSDT"@, "ZRO_USDT"@)) by {
        reveal_strlit("ZROUSDT");
        reveal_strlit("ZRO_USDT");
        lemma_splits("ZROUSDT"@, "ZRO_USDT"@);
    }
    assert(splits("LYNUSDT"@, "LYN_USDT"@)) by {
        reveal_strlit("LYNUSDT");
        reveal_strlit("LYN_USDT");
        lemma_splits("LYNUSDT"@, "LYN_USDT"@);
    }
}

proof fn lemma_splits_6()
    ensures
        splits("POLUSDT"@, "POL_USDT"@),
        splits("ETCUSDT"@, "ETC_USDT"@),
        splits("XANUSDT"@, "XAN_USDT"@),
        splits("ETHFIUSDT"@, "ETHFI_USDT"@),
        splits("STRKUSDT"@, "STRK_USDT"@),
        splits("JASMYUSDT"@, "JASMY_USDT"@),
        splits("LIGHTUSDT"@, "LIGHT_USDT"@),
        splits("BTCUSDT"@, "BTC_USDT"@),
{
    assert(splits("POLUSDT"@, "POL_USDT"@)) by {
        reveal_strlit("POLUSDT");
        reveal_strlit("POL_USDT");
        lemma_splits("POLUSDT"@, "POL_USDT"@);
    }
    assert(splits("ETCUSDT"@, "ETC_USDT"@)) by {
        reveal_strlit("ETCUSDT");
        reveal_strlit("ETC_USDT");
        lemma_splits("ETCUSDT"@, "ETC_USDT"@);
    }
    assert(splits("XANUSDT"@, "XAN_USDT"@)) by {
        reveal_strlit("XANUSDT");
        reveal_strlit("XAN_USDT");
        lemma_splits("XANUSDT"@, "XAN_USDT"@);
    }
    assert(splits("ETHFIUSDT"@, "ETHFI_USDT"@)) by {
        reveal_strlit("ETHFIUSDT");
        reveal_strlit("ETHFI_USDT");
        lemma_splits("ETHFIUSDT"@, "ETHFI_USDT"@);
    }
    assert(splits("STRKUSDT"@, "STRK_USDT"@)) by {
        reveal_strlit("STRKUSDT");
        reveal_strlit("STRK_USDT");
        lemma_splits("STRKUSDT"@, "STRK_USDT"@);
    }
    assert(splits("JASMYUSDT"@, "JASMY_USDT"@)) by {
        reveal_strlit("JASMYUSDT");
        reveal_strlit("JASMY_USDT");
        lemma_splits("JASMYUSDT"@, "JASMY_USDT"@);
    }
    assert(splits("LIGHTUSDT"@, "LIGHT_USDT"@)) by {
        reveal_strlit("LIGHTUSDT");
        reveal_strlit("LIGHT_USDT");
        lemma_splits("LIGHTUSDT"@, "LIGHT_USDT"@);
    }
    assert(splits("BTCUSDT"@, "BTC_USDT"@)) by {
        reveal_strlit("BTCUSDT");
        reveal_strlit("BTC_USDT");
        lemma_splits("BTCUSDT"@, "BTC_USDT"@);
    }
}

proof fn lemma_splits_7()
    ensures
        splits("ETHUSDT"@, "ETH_USDT"@),
        splits("NVIDIAUSDT"@, "NVIDIA_USDT"@),
        splits("SILVERUSDT"@, "SILVER_USDT"@),
        splits("TRUMPOFFICIALUSDT"@, "TRUMPOFFICIAL_USDT"@),
        splits("PUMPFUNUSDT"@, "PUMPFUN_USDT"@),
        splits("MUSTOCKUSDT"@, "MUSTOCK_USDT"@),
        splits("SNDKSTOCKUSDT"@, "SNDKSTOCK_USDT"@),
        splits("INTCSTOCKUSDT"@, "INTCSTOCK_USDT"@),
{
    assert(splits("ETHUSDT"@, "ETH_USDT"@)) by {
        reveal_strlit("ETHUSDT");
        reveal_strlit("ETH_USDT");
        lemma_splits("ETHUSDT"@, "ETH_USDT"@);
    }
    assert(splits("NVIDIAUSDT"@, "NVIDIA_USDT"@)) by {
        reveal_strlit("NVIDIAUSDT");
        reveal_strlit("NVIDIA_USDT");
        lemma_splits("NVIDIAUSDT"@, "NVIDIA_USDT"@);
    }
    assert(splits("SILVERUSDT"@, "SILVER_USDT"@)) by {
        reveal_strlit("SILVERUSDT");
        reveal_strlit("SILVER_USDT");
        lemma_splits("SILVERUSDT"@, "SILVER_USDT"@);
    }
    assert(splits("TRUMPOFFICIALUSDT"@, "TRUMPOFFICIAL_USDT"@)) by {
        reveal_strlit("TRUMPOFFICIALUSDT");
        reveal_strlit("TRUMPOFFICIAL_USDT");
        lemma_splits("TRUMPOFFICIALUSDT"@, "TRUMPOFFICIAL_USDT"@);
    }
    assert(splits("PUMPFUNUSDT"@, "PUMPFUN_USDT"@)) by {
        reveal_strlit("PUMPFUNUSDT");
        reveal_strlit("PUMPFUN_USDT");
        lemma_splits("PUMPFUNUSDT"@, "PUMPFUN_USDT"@);
    }
    assert(splits("MUSTOCKUSDT"@, "MUSTOCK_USDT"@)) by {
        reveal_strlit("MUSTOCKUSDT");
        reveal_strlit("MUSTOCK_USDT");
        lemma_splits("MUSTOCKUSDT"@, "MUSTOCK_USDT"@);
    }
    assert(splits("SNDKSTOCKUSDT"@, "SNDKSTOCK_USDT"@)) by {
        reveal_strlit("SNDKSTOCKUSDT");
        reveal_strlit("SNDKSTOCK_USDT");
        lemma_splits("SNDKSTOCKUSDT"@, "SNDKSTOCK_USDT"@);
    }
    assert(splits("INTCSTOCKUSDT"@, "INTCSTOCK_USDT"@)) by {
        reveal_strlit("INTCSTOCKUSDT");
        reveal_strlit("INTCSTOCK_USDT");
        lemma_splits("INTCSTOCKUSDT"@, "INTCSTOCK_USDT"@);
    }
}

proof fn lemma_splits_8()
    ensures
        splits("MSTRSTOCKUSDT"@, "MSTRSTOCK_USDT"@),
        splits("TESLAUSDT"@, "TESLA_USDT"@),
        splits("AAPLSTOCKUSDT"@, "AAPLSTOCK_USDT"@),
{
    assert(splits("MSTRSTOCKUSDT"@, "MSTRSTOCK_USDT"@)) by {
        reveal_strlit("MSTRSTOCKUSDT");
        reveal_strlit("MSTRSTOCK_USDT");
        lemma_splits("MSTRSTOCKUSDT"@, "MSTRSTOCK_USDT"@);
    }
    assert(splits("TESLAUSDT"@, "TESLA_USDT"@)) by {
        reveal_strlit("TESLAUSDT");
        reveal_strlit("TESLA_USDT");
        lemma_splits("TESLAUSDT"@, "TESLA_USDT"@);
    }
    assert(splits("AAPLSTOCKUSDT"@, "AAPLSTOCK_USDT"@)) by {
        reveal_strlit("AAPLSTOCKUSDT");
        reveal_strlit("AAPLSTOCK_USDT");
        lemma_splits("AAPLSTOCKUSDT"@, "AAPLSTOCK_USDT"@);
    }
}

/// The names on MEXC of the renamed symbols, without their separators. They are no
/// common names of anything.
pub open spec fn is_stray_name(sym: Seq<char>) -> bool {
    ||| sym == "NVIDIAUSDT"@
    ||| sym == "SILVERUSDT"@
    ||| sym == "TRUMPOFFICIALUSDT"@
    ||| sym == "PUMPFUNUSDT"@
    ||| sym == "MUSTOCKUSDT"@
    ||| sym == "SNDKSTOCKUSDT"@
    ||| sym == "INTCSTOCKUSDT"@
    ||| sym == "MSTRSTOCKUSDT"@
    ||| sym == "TESLAUSDT"@
    ||| sym == "AAPLSTOCKUSDT"@
}

/// The names of the renamed symbols tell the symbols apart.
proof fn lemma_renamed_apart(a: Seq<char>, b: Seq<char>)
    requires
        renamed(a) is Some,
        renamed(a) == renamed(b),
    ensures
        a == b,
{
    reveal_strlit("NVIDIA_USDT");
    reveal_strlit("SILVER_USDT");
    reveal_strlit("TRUMPOFFICIAL_USDT");
    reveal_strlit("PUMPFUN_USDT");
    reveal_strlit("MUSTOCK_USDT");
    reveal_strlit("SNDKSTOCK_USDT");
    reveal_strlit("INTCSTOCK_USDT");
    reveal_strlit("MSTRSTOCK_USDT");
    reveal_strlit("TESLA_USDT");
    reveal_strlit("AAPLSTOCK_USDT");
    assert("NVIDIA_USDT"@.len() == 11 && "NVIDIA_USDT"@[0] == 'N' && "NVIDIA_USDT"@[1] == 'V');
    assert("SILVER_USDT"@.len() == 11 && "SILVER_USDT"@[0] == 'S' && "SILVER_USDT"@[1] == 'I');
    assert("TRUMPOFFICIAL_USDT"@.len() == 18 && "TRUMPOFFICIAL_USDT"@[0] == 'T' && "TRUMPOFFICIAL_USDT"@[1] == 'R');
    assert("PUMPFUN_USDT"@.len() == 12 && "PUMPFUN_USDT"@[0] == 'P' && "PUMPFUN_USDT"@[1] == 'U');
    assert("MUSTOCK_USDT"@.len() == 12 && "MUSTOCK_USDT"@[0] == 'M' && "MUSTOCK_USDT"@[1] == 'U');
    assert("SNDKSTOCK_USDT"@.len() == 14 && "SNDKSTOCK_USDT"@[0] == 'S' && "SNDKSTOCK_USDT"@[1] == 'N');
    assert("INTCSTOCK_USDT"@.len() == 14 && "INTCSTOCK_USDT"@[0] == 'I' && "INTCSTOCK_USDT"@[1] == 'N');
    assert("MSTRSTOCK_USDT"@.len() == 14 && "MSTRSTOCK_USDT"@[0] == 'M' && "MSTRSTOCK_USDT"@[1] == 'S');
    assert("TESLA_USDT"@.len() == 10 && "TESLA_USDT"@[0] == 'T' && "TESLA_USDT"@[1] == 'E');
    assert("AAPLSTOCK_USDT"@.len() == 14 && "AAPLSTOCK_USDT"@[0] == 'A' && "AAPLSTOCK_USDT"@[1] == 'A');
}

/// A symbol that is split into the name of a renamed one is that name without its
/// separator.
proof fn lemma_only_strays_collide(s: Seq<char>, other: Seq<char>)
    requires
        !s.contains('_'),
        renamed(other) is Some,
        split_name(s) == renamed(other)->0,
    ensures
        is_stray_name(s),
{
    lemma_splits_7();
    lemma_splits_8();
    lemma_split_name(s);
    lemma_split_name("NVIDIAUSDT"@);
    lemma_split_name("SILVERUSDT"@);
    lemma_split_name("TRUMPOFFICIALUSDT"@);
    lemma_split_name("PUMPFUNUSDT"@);
    lemma_split_name("MUSTOCKUSDT"@);
    lemma_split_name("SNDKSTOCKUSDT"@);
    lemma_split_name("INTCSTOCKUSDT"@);
    lemma_split_name("MSTRSTOCKUSDT"@);
    lemma_split_name("TESLAUSDT"@);
    lemma_split_name("AAPLSTOCKUSDT"@);
}

/// Different symbols have different names on MEXC, where both or neither have a
/// separator of their own. The stray names are left out: each is named like another
/// symbol.
pub proof fn law_names_are_distinct(a: Seq<char>, b: Seq<char>)
    requires
        a.contains('_') == b.contains('_'),
        !is_stray_name(a),
        !is_stray_name(b),
        mexc_name(a) == mexc_name(b),
    ensures
        a == b,
{
    lemma_renamed(a);
    lemma_renamed(b);
    if !a.contains('_') {
        if renamed(a) is Some && renamed(b) is Some {
            lemma_renamed_apart(a, b);
        } else if renamed(a) is Some {
            lemma_only_strays_collide(b, a);
        } else if renamed(b) is Some {
            lemma_only_strays_collide(a, b);
        } else {
            lemma_split_name(a);
            lemma_split_name(b);
        }
    }
}

/// A symbol and its name on MEXC stand for one instrument. The stray names are left
/// out: splitting one gives the name of another symbol.
pub proof fn law_both_names_mean_one_instrument(sym: Seq<char>)
    requires
        !is_stray_name(sym),
    ensures
        instrument(mexc_name(sym)) == instrument(sym),
{
    lemma_renamed(sym);
    if renamed(sym) is Some {
        lemma_renamed_instruments(sym);
    } else if !sym.contains('_') {
        lemma_split_instruments(sym);
    }
}

proof fn lemma_renamed_instruments(sym: Seq<char>)
    requires
        renamed(sym) is Some,
    ensures
        instrument(renamed(sym)->0) == instrument(sym),
{
    reveal_strlit("NVDAUSDT");
    reveal_strlit("NVIDIA_USDT");
    reveal_strlit("XAGUSDT");
    reveal_strlit("SILVER_USDT");
    reveal_strlit("TRUMPUSDT");
    reveal_strlit("TRUMPOFFICIAL_USDT");
    reveal_strlit("PUMPUSDT");
    reveal_strlit("PUMPFUN_USDT");
    reveal_strlit("MUUSDT");
    reveal_strlit("MUSTOCK_USDT");
    reveal_strlit("SNDKUSDT");
    reveal_strlit("SNDKSTOCK_USDT");
    reveal_strlit("INTCUSDT");
    reveal_strlit("INTCSTOCK_USDT");
    reveal_strlit("MSTRUSDT");
    reveal_strlit("MSTRSTOCK_USDT");
    reveal_strlit("TSLAUSDT");
    reveal_strlit("TESLA_USDT");
    reveal_strlit("AAPLUSDT");
    reveal_strlit("AAPLSTOCK_USDT");
    assert("NVDAUSDT"@.len() == 8 && "NVDAUSDT"@[0] == 'N' && "NVDAUSDT"@[1] == 'V');
    assert("NVIDIA_USDT"@.len() == 11 && "NVIDIA_USDT"@[0] == 'N' && "NVIDIA_USDT"@[1] == 'V');
    assert("XAGUSDT"@.len() == 7 && "XAGUSDT"@[0] == 'X' && "XAGUSDT"@[1] == 'A');
    assert("SILVER_USDT"@.len() == 11 && "SILVER_USDT"@[0] == 'S' && "SILVER_USDT"@[1] == 'I');
    assert("TRUMPUSDT"@.len() == 9 && "TRUMPUSDT"@[0] == 'T' && "TRUMPUSDT"@[1] == 'R');
    assert("TRUMPOFFICIAL_USDT"@.len() == 18 && "TRUMPOFFICIAL_USDT"@[0] == 'T' && "TRUMPOFFICIAL_USDT"@[1] == 'R');
    assert("PUMPUSDT"@.len() == 8 && "PUMPUSDT"@[0] == 'P' && "PUMPUSDT"@[1] == 'U');
    assert("PUMPFUN_USDT"@.len() == 12 && "PUMPFUN_USDT"@[0] == 'P' && "PUMPFUN_USDT"@[1] == 'U');
    assert("MUUSDT"@.len() == 6 && "MUUSDT"@[0] == 'M' && "MUUSDT"@[1] == 'U');
    assert("MUSTOCK_USDT"@.len() == 12 && "MUSTOCK_USDT"@[0] == 'M' && "MUSTOCK_USDT"@[1] == 'U');
    assert("SNDKUSDT"@.len() == 8 && "SNDKUSDT"@[0] == 'S' && "SNDKUSDT"@[1] == 'N');
    assert("SNDKSTOCK_USDT"@.len() == 14 && "SNDKSTOCK_USDT"@[0] == 'S' && "SNDKSTOCK_USDT"@[1] == 'N');
    assert("INTCUSDT"@.len() == 8 && "INTCUSDT"@[0] == 'I' && "INTCUSDT"@[1] == 'N');
    assert("INTCSTOCK_USDT"@.len() == 14 && "INTCSTOCK_USDT"@[0] == 'I' && "INTCSTOCK_USDT"@[1] == 'N');
    assert("MSTRUSDT"@.len() == 8 && "MSTRUSDT"@[0] == 'M' && "MSTRUSDT"@[1] == 'S');
    assert("MSTRSTOCK_USDT"@.len() == 14 && "MSTRSTOCK_USDT"@[0] == 'M' && "MSTRSTOCK_USDT"@[1] == 'S');
    assert("TSLAUSDT"@.len() == 8 && "TSLAUSDT"@[0] == 'T' && "TSLAUSDT"@[1] == 'S');
    assert("TESLA_USDT"@.len() == 10 && "TESLA_USDT"@[0] == 'T' && "TESLA_USDT"@[1] == 'E');
    assert("AAPLUSDT"@.len() == 8 && "AAPLUSDT"@[0] == 'A' && "AAPLUSDT"@[1] == 'A');
    assert("AAPLSTOCK_USDT"@.len() == 14 && "AAPLSTOCK_USDT"@[0] == 'A' && "AAPLSTOCK_USDT"@[1] == 'A');
}

proof fn lemma_split_instruments(s: Seq<char>)
    requires
        !s.contains('_'),
        renamed(s) is None,
        !is_stray_name(s),
    ensures
        instrument(split_name(s)) == instrument(s),
{
    lemma_split_name(s);
    lemma_splits_1();
    lemma_splits_2();
    lemma_splits_3();
    lemma_splits_4();
    lemma_splits_5();
    lemma_splits_6();
    lemma_splits_7();
    lemma_splits_8();
    lemma_pair_is_kept(s, "TAOUSDT"@, "TAO_USDT"@);
    lemma_pair_is_kept(s, "ASTERUSDT"@, "ASTER_USDT"@);
    lemma_pair_is_kept(s, "PENGUUSDT"@, "PENGU_USDT"@);
    lemma_pair_is_kept(s, "ZECUSDT"@, "ZEC_USDT"@);
    lemma_pair_is_kept(s, "ENAUSDT"@, "ENA_USDT"@);
    lemma_pair_is_kept(s, "BCHUSDT"@, "BCH_USDT"@);
    lemma_pair_is_kept(s, "LINKUSDT"@, "LINK_USDT"@);
    lemma_pair_is_kept(s, "HYPEUSDT"@, "HYPE_USDT"@);
    lemma_pair_is_kept(s, "UNIUSDT"@, "UNI_USDT"@);
    lemma_pair_is_kept(s, "XLMUSDT"@, "XLM_USDT"@);
    lemma_pair_is_kept(s, "HBARUSDT"@, "HBAR_USDT"@);
    lemma_pair_is_kept(s, "XAUTUSDT"@, "XAUT_USDT"@);
    lemma_pair_is_kept(s, "SOLUSDT"@, "SOL_USDT"@);
    lemma_pair_is_kept(s, "XRPUSDT"@, "XRP_USDT"@);
    lemma_pair_is_kept(s, "SUIUSDT"@, "SUI_USDT"@);
    lemma_pair_is_kept(s, "DASHUSDT"@, "DASH_USDT"@);
    lemma_pair_is_kept(s, "ADAUSDT"@, "ADA_USDT"@);
    lemma_pair_is_kept(s, "BNBUSDT"@, "BNB_USDT"@);
    lemma_pair_is_kept(s, "LTCUSDT"@, "LTC_USDT"@);
    lemma_pair_is_kept(s, "ZENUSDT"@, "ZEN_USDT"@);
    lemma_pair_is_kept(s, "AVAXUSDT"@, "AVAX_USDT"@);
    lemma_pair_is_kept(s, "WLDUSDT"@, "WLD_USDT"@);
    lemma_pair_is_kept(s, "XMRUSDT"@, "XMR_USDT"@);
    lemma_pair_is_kept(s, "ARBUSDT"@, "ARB_USDT"@);
    lemma_pair_is_kept(s, "WIFUSDT"@, "WIF_USDT"@);
    lemma_pair_is_kept(s, "KASUSDT"@, "KAS_USDT"@);
    lemma_pair_is_kept(s, "DOGEUSDT"@, "DOGE_USDT"@);
    lemma_pair_is_kept(s, "ORDIUSDT"@, "ORDI_USDT"@);
    lemma_pair_is_kept(s, "SIRENUSDT"@, "SIREN_USDT"@);
    lemma_pair_is_kept(s, "HUSDT"@, "H_USDT"@);
    lemma_pair_is_kept(s, "PIPPINUSDT"@, "PIPPIN_USDT"@);
    lemma_pair_is_kept(s, "GIGGLEUSDT"@, "GIGGLE_USDT"@);
    lemma_pair_is_kept(s, "FHEUSDT"@, "FHE_USDT"@);
    lemma_pair_is_kept(s, "WLFIUSDT"@, "WLFI_USDT"@);
    lemma_pair_is_kept(s, "MEGAUSDT"@, "MEGA_USDT"@);
    lemma_pair_is_kept(s, "BLESSUSDT"@, "BLESS_USDT"@);
    lemma_pair_is_kept(s, "CRVUSDT"@, "CRV_USDT"@);
    lemma_pair_is_kept(s, "XPLUSDT"@, "XPL_USDT"@);
    lemma_pair_is_kept(s, "ZROUSDT"@, "ZRO_USDT"@);
    lemma_pair_is_kept(s, "LYNUSDT"@, "LYN_USDT"@);
    lemma_pair_is_kept(s, "POLUSDT"@, "POL_USDT"@);
    lemma_pair_is_kept(s, "ETCUSDT"@, "ETC_USDT"@);
    lemma_pair_is_kept(s, "XANUSDT"@, "XAN_USDT"@);
    lemma_pair_is_kept(s, "ETHFIUSDT"@, "ETHFI_USDT"@);
    lemma_pair_is_kept(s, "STRKUSDT"@, "STRK_USDT"@);
    lemma_pair_is_kept(s, "JASMYUSDT"@, "JASMY_USDT"@);
    lemma_pair_is_kept(s, "LIGHTUSDT"@, "LIGHT_USDT"@);
    lemma_pair_is_kept(s, "BTCUSDT"@, "BTC_USDT"@);
    lemma_pair_is_kept(s, "ETHUSDT"@, "ETH_USDT"@);
    lemma_pair_is_kept(s, "NVIDIAUSDT"@, "NVIDIA_USDT"@);
    lemma_pair_is_kept(s, "SILVERUSDT"@, "SILVER_USDT"@);
    lemma_pair_is_kept(s, "TRUMPOFFICIALUSDT"@, "TRUMPOFFICIAL_USDT"@);
    lemma_pair_is_kept(s, "PUMPFUNUSDT"@, "PUMPFUN_USDT"@);
    lemma_pair_is_kept(s, "MUSTOCKUSDT"@, "MUSTOCK_USDT"@);
    lemma_pair_is_kept(s, "SNDKSTOCKUSDT"@, "SNDKSTOCK_USDT"@);
    lemma_pair_is_kept(s, "INTCSTOCKUSDT"@, "INTCSTOCK_USDT"@);
    lemma_pair_is_kept(s, "MSTRSTOCKUSDT"@, "MSTRSTOCK_USDT"@);
    lemma_pair_is_kept(s, "TESLAUSDT"@, "TESLA_USDT"@);
    lemma_pair_is_kept(s, "AAPLSTOCKUSDT"@, "AAPLSTOCK_USDT"@);
    lemma_renamed("NVDAUSDT"@);
    lemma_renamed("XAGUSDT"@);
    lemma_renamed("TRUMPUSDT"@);
    lemma_renamed("PUMPUSDT"@);
    lemma_renamed("MUUSDT"@);
    lemma_renamed("SNDKUSDT"@);
    lemma_renamed("INTCUSDT"@);
    lemma_renamed("MSTRUSDT"@);
    lemma_renamed("TSLAUSDT"@);
    lemma_renamed("AAPLUSDT"@);
}

/// The symbols of which more is known than the defaults, under both their names.
pub open spec fn is_listed(sym: Seq<char>) -> bool {
    ||| sym == "NVDAUSDT"@ || sym == "NVIDIA_USDT"@
    ||| sym == "XAGUSDT"@ || sym == "SILVER_USDT"@
    ||| sym == "TRUMPUSDT"@ || sym == "TRUMPOFFICIAL_USDT"@
    ||| sym == "PUMPUSDT"@ || sym == "PUMPFUN_USDT"@
    ||| sym == "MUUSDT"@ || sym == "MUSTOCK_USDT"@
    ||| sym == "SNDKUSDT"@ || sym == "SNDKSTOCK_USDT"@
    ||| sym == "INTCUSDT"@ || sym == "INTCSTOCK_USDT"@
    ||| sym == "MSTRUSDT"@ || sym == "MSTRSTOCK_USDT"@
    ||| sym == "TSLAUSDT"@ || sym == "TESLA_USDT"@
    ||| sym == "AAPLUSDT"@ || sym == "AAPLSTOCK_USDT"@
    ||| sym == "TAOUSDT"@ || sym == "TAO_USDT"@
    ||| sym == "ASTERUSDT"@ || sym == "ASTER_USDT"@
    ||| sym == "PENGUUSDT"@ || sym == "PENGU_USDT"@
    ||| sym == "ZECUSDT"@ || sym == "ZEC_USDT"@
    ||| sym == "ENAUSDT"@ || sym == "ENA_USDT"@
    ||| sym == "BCHUSDT"@ || sym == "BCH_USDT"@
    ||| sym == "LINKUSDT"@ || sym == "LINK_USDT"@
    ||| sym == "HYPEUSDT"@ || sym == "HYPE_USDT"@
    ||| sym == "UNIUSDT"@ || sym == "UNI_USDT"@
    ||| sym == "XLMUSDT"@ || sym == "XLM_USDT"@
    ||| sym == "HBARUSDT"@ || sym == "HBAR_USDT"@
    ||| sym == "XAUTUSDT"@ || sym == "XAUT_USDT"@
    ||| sym == "SOLUSDT"@ || sym == "SOL_USDT"@
    ||| sym == "XRPUSDT"@ || sym == "XRP_USDT"@
    ||| sym == "SUIUSDT"@ || sym == "SUI_USDT"@
    ||| sym == "DASHUSDT"@ || sym == "DASH_USDT"@
    ||| sym == "ADAUSDT"@ || sym == "ADA_USDT"@
    ||| sym == "BNBUSDT"@ || sym == "BNB_USDT"@
    ||| sym == "LTCUSDT"@ || sym == "LTC_USDT"@
    ||| sym == "ZENUSDT"@ || sym == "ZEN_USDT"@
    ||| sym == "AVAXUSDT"@ || sym == "AVAX_USDT"@
    ||| sym == "WLDUSDT"@ || sym == "WLD_USDT"@
    ||| sym == "XMRUSDT"@ || sym == "XMR_USDT"@
    ||| sym == "ARBUSDT"@ || sym == "ARB_USDT"@
    ||| sym == "WIFUSDT"@ || sym == "WIF_USDT"@
    ||| sym == "KASUSDT"@ || sym == "KAS_USDT"@
    ||| sym == "DOGEUSDT"@ || sym == "DOGE_USDT"@
    ||| sym == "ORDIUSDT"@ || sym == "ORDI_USDT"@
    ||| sym == "SIRENUSDT"@ || sym == "SIREN_USDT"@
    ||| sym == "HUSDT"@ || sym == "H_USDT"@
    ||| sym == "PIPPINUSDT"@ || sym == "PIPPIN_USDT"@
    ||| sym == "GIGGLEUSDT"@ || sym == "GIGGLE_USDT"@
    ||| sym == "FHEUSDT"@ || sym == "FHE_USDT"@
    ||| sym == "WLFIUSDT"@ || sym == "WLFI_USDT"@
    ||| sym == "MEGAUSDT"@ || sym == "MEGA_USDT"@
    ||| sym == "BLESSUSDT"@ || sym == "BLESS_USDT"@
    ||| sym == "CRVUSDT"@ || sym == "CRV_USDT"@
    ||| sym == "XPLUSDT"@ || sym == "XPL_USDT"@
    ||| sym == "ZROUSDT"@ || sym == "ZRO_USDT"@
    ||| sym == "LYNUSDT"@ || sym == "LYN_USDT"@
    ||| sym == "POLUSDT"@ || sym == "POL_USDT"@
    ||| sym == "ETCUSDT"@ || sym == "ETC_USDT"@
    ||| sym == "XANUSDT"@ || sym == "XAN_USDT"@
    ||| sym == "ETHFIUSDT"@ || sym == "ETHFI_USDT"@
    ||| sym == "STRKUSDT"@ || sym == "STRK_USDT"@
    ||| sym == "JASMYUSDT"@ || sym == "JASMY_USDT"@
    ||| sym == "LIGHTUSDT"@ || sym == "LIGHT_USDT"@
    ||| sym == "BTCUSDT"@ || sym == "BTC_USDT"@
    ||| sym == "ETHUSDT"@ || sym == "ETH_USDT"@
}

/// A symbol that is not listed trades a hundredth of a coin per contract with a leverage
/// of 50; for every symbol the leverage is between 50 and 1000, and a contract is at
/// least a ten-thousandth of a coin and at most a thousand.
pub proof fn law_unlisted_symbols_have_the_defaults(sym: Seq<char>)
    ensures
        !is_listed(sym) ==> instrument(sym).leverage == 50 && instrument(sym).contract_size == 100,
        50 <= instrument(sym).leverage <= 1000,
        1 <= instrument(sym).contract_size <= 10_000_000,
{
}

proof fn lemma_split_once(base: Seq<char>)
    requires
        !occurs(base, "USDT"@),
    ensures
        split_name(base + "USDT"@) == base + "_USDT"@,
    decreases base.len(),
{
    reveal_strlit("USDT");
    reveal_strlit("_USDT");
    let pat = "USDT"@;
    let s = base + pat;
    if base.len() == 0 {
        lemma_split_at_the_end(base);
    } else {
        if occurs_at(s, pat, 0) {
            let front = s.subrange(0, 4);
            assert(front[0] == 'U' && front[1] == 'S' && front[2] == 'D' && front[3] == 'T');
            if base.len() >= 4 {
                assert(base.subrange(0, 4) =~= pat);
                assert(occurs_at(base, pat, 0));
            } else {
                assert(s[base.len() as int] == 'U');
            }
        }
        let rest = base.skip(1);
        assert(!occurs(rest, pat)) by {
            if occurs(rest, pat) {
                let i = choose|i: int| #[trigger] occurs_at(rest, pat, i);
                assert(base.subrange(i + 1, i + 1 + 4) =~= rest.subrange(i, i + 4));
                assert(occurs_at(base, pat, i + 1));
            }
        }
        assert(s.skip(1) =~= rest + pat);
        lemma_split_once(rest);
        assert(split_name(s) =~= base + "_USDT"@);
    }
}

/// MEXC renames ten symbols and no other. Of the others one with a separator keeps its
/// name, and one without gets a separator before every USDT, so before the last one
/// where that is all.
pub proof fn law_other_symbols_get_a_separator(sym: Seq<char>, base: Seq<char>)
    requires
        sym != "NVDAUSDT"@,
        sym != "XAGUSDT"@,
        sym != "TRUMPUSDT"@,
        sym != "PUMPUSDT"@,
        sym != "MUUSDT"@,
        sym != "SNDKUSDT"@,
        sym != "INTCUSDT"@,
        sym != "MSTRUSDT"@,
        sym != "TSLAUSDT"@,
        sym != "AAPLUSDT"@,
    ensures
        renamed(sym) is None,
        sym.contains('_') ==> mexc_name(sym) == sym,
        !sym.contains('_') ==> mexc_name(sym) == replaced(sym, "USDT"@, "_USDT"@),
        !sym.contains('_') && sym == base + "USDT"@ && !occurs(base, "USDT"@) ==> mexc_name(sym)
            == base + "_USDT"@,
{
    if !occurs(base, "USDT"@) {
        lemma_split_once(base);
    }
}

} // verus!
