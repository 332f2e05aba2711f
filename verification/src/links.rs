//! Project and donation links shown in the tray menu and the settings window.
use vstd::prelude::*;

use crate::text::{chars_of, is_lit};

verus! {

/// Source repository.
pub const GITHUB_URL: &'static str = "https://github.com/MineGL/winbend";

/// Primary donation page (GitHub Sponsors pays out through Stripe).
pub const DONATE_URL: &'static str = "https://github.com/sponsors/MineGL";

/// A crypto wallet listed on the About page with a copy button.
pub struct Wallet {
    /// Coin and network, e.g. "Bitcoin", "Ethereum (ERC-20)", "USDT (TRC-20)".
    pub name: &'static str,
    pub address: &'static str,
}

/// Address of the Ethereum and BNB Smart Chain wallet.
pub const EVM_ADDRESS: &'static str = "0xf177d181a287f43e45b14235640693d5daac125a";

/// Address of the Tron wallet.
pub const TRON_ADDRESS: &'static str = "TWMBxrG7ERvYYejd2PMuLJS3jnjQCrArAx";

/// The wallets listed on the About page, each on the network it names.
pub fn wallets() -> (w: Vec<Wallet>)
    ensures
        w@.len() == 3,
        w@[0].name@ == "Ethereum (ERC-20)"@ && w@[0].address@ == EVM_ADDRESS@,
        w@[1].name@ == "BNB Smart Chain (BEP-20)"@ && w@[1].address@ == EVM_ADDRESS@,
        w@[2].name@ == "Tron (TRC-20)"@ && w@[2].address@ == TRON_ADDRESS@,
{
    let mut w = Vec::new();
    w.push(Wallet { name: "Ethereum (ERC-20)", address: EVM_ADDRESS });
    w.push(Wallet { name: "BNB Smart Chain (BEP-20)", address: EVM_ADDRESS });
    w.push(Wallet { name: "Tron (TRC-20)", address: TRON_ADDRESS });
    w
}

/// Whether `text` is the address of one of `wallets`; only shipped addresses may be copied,
/// so the settings page cannot plant arbitrary text on the clipboard.
pub fn is_listed_address(wallets: &[Wallet], text: &str) -> (b: bool)
    ensures
        b == exists|i: int| 0 <= i < wallets@.len() && wallets@[i].address@ == text@,
{
    let t = chars_of(text);
    let mut i: usize = 0;
    while i < wallets.len()
        invariant
            t@ == text@,
            i <= wallets@.len(),
            forall|k: int| 0 <= k < i ==> wallets@[k].address@ != text@,
        decreases wallets@.len() - i,
    {
        let a = chars_of(wallets[i].address);
        if is_lit(a.as_slice(), text) {
            return true;
        }
        i = i + 1;
    }
    false
}

} // verus!
