//! The options of a reply while it is being put together.
use std::collections::HashMap;

use vstd::prelude::*;

use crate::dhcppkt::{copy_bytes, DhcpOption, DhcpOptions, OptionMap, Serialise};

verus! {

broadcast use vstd::std_specs::hash::group_hash_axioms;

/// The options of a reply. An option can be unset, set to `None` (do not send), or set to a
/// specific value.
pub struct ResponseOptions {
    option: HashMap<DhcpOption, Option<Vec<u8>>>,
}

/// The settings of the options of a reply.
pub type Settings = Map<DhcpOption, Option<Seq<u8>>>;

/// The bytes of a setting.
pub open spec fn setting(v: Option<Vec<u8>>) -> Option<Seq<u8>> {
    match v {
        Some(bytes) => Some(bytes@),
        None => None,
    }
}

impl View for ResponseOptions {
    type V = Settings;

    closed spec fn view(&self) -> Settings {
        self.option@.map_values(|v: Option<Vec<u8>>| setting(v))
    }
}

/// The options that are sent: those that are set to a value.
pub open spec fn sent(settings: Settings) -> OptionMap {
    Map::new(
        |option: DhcpOption| settings.contains_key(option) && settings[option] is Some,
        |option: DhcpOption| settings[option].unwrap(),
    )
}

impl Default for ResponseOptions {
    /// No option set.
    fn default() -> (options: ResponseOptions)
        ensures
            options@ == Settings::empty(),
    {
        let options = ResponseOptions { option: HashMap::new() };
        assert(options@ =~= Settings::empty());
        options
    }
}

impl ResponseOptions {
    fn put(&mut self, option: &DhcpOption, value: Option<Vec<u8>>)
        ensures
            final(self)@ == old(self)@.insert(*option, setting(value)),
    {
        self.option.insert(*option, value);
        assert(self@ =~= old(self)@.insert(*option, setting(value)));
    }

    /// Sets an option to the bytes given.
    pub fn set_raw_option(self, option: &DhcpOption, value: &[u8]) -> (r: ResponseOptions)
        ensures
            r@ == self@.insert(*option, Some(value@)),
    {
        let mut options = self;
        options.put(option, Some(vstd::slice::slice_to_vec(value)));
        options
    }

    /// Sets an option to a value.
    pub fn set_option<T: Serialise>(self, option: &DhcpOption, value: &T) -> (r: ResponseOptions)
        ensures
            r@ == self@.insert(*option, Some(value.bytes())),
    {
        let mut v: Vec<u8> = Vec::new();
        value.serialise(&mut v);
        assert(v@ =~= value.bytes());
        self.set_raw_option(option, v.as_slice())
    }

    /// Sets an option to a value, or to not being sent.
    pub fn mutate_option<T: Serialise>(&mut self, option: &DhcpOption, maybe_value: Option<&T>)
        ensures
            final(self)@ == old(self)@.insert(
                *option,
                match maybe_value {
                    Some(value) => Some(value.bytes()),
                    None => None,
                },
            ),
    {
        match maybe_value {
            Some(value) => {
                let mut v: Vec<u8> = Vec::new();
                value.serialise(&mut v);
                assert(v@ =~= value.bytes());
                self.put(option, Some(v));
            },
            None => {
                self.put(option, None);
            },
        }
    }

    /// Sets an option to a value unless it is set already.
    pub fn mutate_option_default<T: Serialise>(&mut self, option: &DhcpOption, value: &T)
        ensures
            final(self)@ == if old(self)@.contains_key(*option) {
                old(self)@
            } else {
                old(self)@.insert(*option, Some(value.bytes()))
            },
    {
        if self.option.get(option).is_none() {
            self.mutate_option(option, Some(value));
        }
    }

    /// The options to send.
    pub fn to_options(&self) -> (options: DhcpOptions)
        ensures
            options@ == sent(self@),
    {
        let mut opt = DhcpOptions::default();
        for (k, v) in it: self.option.iter()
            invariant
                forall|i: int|
                    0 <= i < it.index() && (#[trigger] it.seq()[i]).1 is Some ==> opt@.contains_key(
                        *it.seq()[i].0,
                    ),
                forall|c: DhcpOption| #[trigger]
                    opt@.contains_key(c) ==> self@.contains_key(c) && self@[c] == Some(opt@[c]),
        {
            let ghost before = opt@;
            assert(self.option@.contains_key(*k) && self.option@[*k] == *v);
            if let Some(d) = v {
                opt.other.insert(*k, copy_bytes(d));
                assert(opt@ =~= before.insert(*k, d@));
            }
        }
        assert forall|c: DhcpOption| #[trigger] sent(self@).contains_key(c) implies opt@.contains_key(
            c,
        ) by {
            assert(self.option@.contains_key(c));
        }
        assert(opt@ =~= sent(self@));
        opt
    }
}

} // verus!
