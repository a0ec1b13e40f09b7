//! The engine handle and the options it is created with.

use vstd::prelude::*;
use vstd::string::StringExecFns;
use std::marker::PhantomData;
use std::rc::Rc;
use crate::error::{Error, ErrorModel};

verus! {

/// The options of an engine, fixed when the engine is created. They are
/// handed over whole when the engine is made, and there is no way to change
/// them after they are built.
#[derive(Debug)]
pub struct RuntimeConfig {
    enable_eval: bool,
    es6_promise: bool,
    es6_proxy: bool,
    es6_class: bool,
    intl: bool,
    microtask_queue: bool,
    enable_generator: bool,
    enable_block_scoping: bool,
    enable_hermes_internal: bool,
    enable_hermes_internal_test_methods: bool,
    max_num_registers: u32,
}

/// The mathematical content of a [`RuntimeConfig`].
pub struct ConfigModel {
    pub enable_eval: bool,
    pub es6_promise: bool,
    pub es6_proxy: bool,
    pub es6_class: bool,
    pub intl: bool,
    pub microtask_queue: bool,
    pub enable_generator: bool,
    pub enable_block_scoping: bool,
    pub enable_hermes_internal: bool,
    pub enable_hermes_internal_test_methods: bool,
    pub max_num_registers: u32,
}

impl ConfigModel {
    /// The options of an engine that is created without any being chosen.
    pub open spec fn defaults() -> ConfigModel {
        ConfigModel {
            enable_eval: true,
            es6_promise: true,
            es6_proxy: true,
            es6_class: false,
            intl: true,
            microtask_queue: false,
            enable_generator: true,
            enable_block_scoping: false,
            enable_hermes_internal: true,
            enable_hermes_internal_test_methods: false,
            max_num_registers: 131072,
        }
    }
}

impl View for RuntimeConfig {
    type V = ConfigModel;

    closed spec fn view(&self) -> ConfigModel {
        ConfigModel {
            enable_eval: self.enable_eval,
            es6_promise: self.es6_promise,
            es6_proxy: self.es6_proxy,
            es6_class: self.es6_class,
            intl: self.intl,
            microtask_queue: self.microtask_queue,
            enable_generator: self.enable_generator,
            enable_block_scoping: self.enable_block_scoping,
            enable_hermes_internal: self.enable_hermes_internal,
            enable_hermes_internal_test_methods: self.enable_hermes_internal_test_methods,
            max_num_registers: self.max_num_registers,
        }
    }
}

impl RuntimeConfig {
    /// A builder that starts from the defaults.
    pub fn builder() -> (b: RuntimeConfigBuilder)
        ensures
            b@ == ConfigModel::defaults(),
    {
        RuntimeConfigBuilder {
            config: RuntimeConfig {
                enable_eval: true,
                es6_promise: true,
                es6_proxy: true,
                es6_class: false,
                intl: true,
                microtask_queue: false,
                enable_generator: true,
                enable_block_scoping: false,
                enable_hermes_internal: true,
                enable_hermes_internal_test_methods: false,
                max_num_registers: 128 * 1024,
            },
        }
    }

    /// Whether scripts may call `eval()` and the `Function()` constructor.
    pub fn enable_eval(&self) -> (v: bool)
        ensures
            v == self@.enable_eval,
    {
        self.enable_eval
    }

    /// Whether promises are available.
    pub fn es6_promise(&self) -> (v: bool)
        ensures
            v == self@.es6_promise,
    {
        self.es6_promise
    }

    /// Whether proxies are available.
    pub fn es6_proxy(&self) -> (v: bool)
        ensures
            v == self@.es6_proxy,
    {
        self.es6_proxy
    }

    /// Whether class syntax is available.
    pub fn es6_class(&self) -> (v: bool)
        ensures
            v == self@.es6_class,
    {
        self.es6_class
    }

    /// Whether the internationalisation interfaces are available.
    pub fn intl(&self) -> (v: bool)
        ensures
            v == self@.intl,
    {
        self.intl
    }

    /// Whether the engine keeps a microtask queue.
    pub fn microtask_queue(&self) -> (v: bool)
        ensures
            v == self@.microtask_queue,
    {
        self.microtask_queue
    }

    /// Whether generators are available.
    pub fn enable_generator(&self) -> (v: bool)
        ensures
            v == self@.enable_generator,
    {
        self.enable_generator
    }

    /// Whether `let` and `const` are scoped to their block.
    pub fn enable_block_scoping(&self) -> (v: bool)
        ensures
            v == self@.enable_block_scoping,
    {
        self.enable_block_scoping
    }

    /// Whether scripts see the engine's diagnostics object.
    pub fn enable_hermes_internal(&self) -> (v: bool)
        ensures
            v == self@.enable_hermes_internal,
    {
        self.enable_hermes_internal
    }

    /// Whether the diagnostics object has its test methods.
    pub fn enable_hermes_internal_test_methods(&self) -> (v: bool)
        ensures
            v == self@.enable_hermes_internal_test_methods,
    {
        self.enable_hermes_internal_test_methods
    }

    /// The largest number of registers the engine may use.
    pub fn max_num_registers(&self) -> (v: u32)
        ensures
            v == self@.max_num_registers,
    {
        self.max_num_registers
    }
}

/// Chooses the options of an engine, one at a time.
#[derive(Debug)]
pub struct RuntimeConfigBuilder {
    config: RuntimeConfig,
}

impl View for RuntimeConfigBuilder {
    type V = ConfigModel;

    closed spec fn view(&self) -> ConfigModel {
        self.config@
    }
}

impl RuntimeConfigBuilder {
    /// Allows or forbids `eval()` and the `Function()` constructor. Allowed
    /// by default.
    pub fn enable_eval(self, v: bool) -> (b: Self)
        ensures
            b@ == (ConfigModel { enable_eval: v, ..self@ }),
    {
        let mut b = self;
        b.config.enable_eval = v;
        b
    }

    /// Switches promises on or off. On by default.
    pub fn es6_promise(self, v: bool) -> (b: Self)
        ensures
            b@ == (ConfigModel { es6_promise: v, ..self@ }),
    {
        let mut b = self;
        b.config.es6_promise = v;
        b
    }

    /// Switches proxies on or off. On by default.
    pub fn es6_proxy(self, v: bool) -> (b: Self)
        ensures
            b@ == (ConfigModel { es6_proxy: v, ..self@ }),
    {
        let mut b = self;
        b.config.es6_proxy = v;
        b
    }

    /// Switches class syntax on or off. Off by default.
    pub fn es6_class(self, v: bool) -> (b: Self)
        ensures
            b@ == (ConfigModel { es6_class: v, ..self@ }),
    {
        let mut b = self;
        b.config.es6_class = v;
        b
    }

    /// Switches the internationalisation interfaces on or off. On by
    /// default.
    pub fn intl(self, v: bool) -> (b: Self)
        ensures
            b@ == (ConfigModel { intl: v, ..self@ }),
    {
        let mut b = self;
        b.config.intl = v;
        b
    }

    /// Switches the microtask queue on or off. Off by default.
    pub fn microtask_queue(self, v: bool) -> (b: Self)
        ensures
            b@ == (ConfigModel { microtask_queue: v, ..self@ }),
    {
        let mut b = self;
        b.config.microtask_queue = v;
        b
    }

    /// Switches generators on or off. On by default.
    pub fn enable_generator(self, v: bool) -> (b: Self)
        ensures
            b@ == (ConfigModel { enable_generator: v, ..self@ }),
    {
        let mut b = self;
        b.config.enable_generator = v;
        b
    }

    /// Switches block scoping of `let` and `const` on or off. Off by
    /// default.
    pub fn enable_block_scoping(self, v: bool) -> (b: Self)
        ensures
            b@ == (ConfigModel { enable_block_scoping: v, ..self@ }),
    {
        let mut b = self;
        b.config.enable_block_scoping = v;
        b
    }

    /// Shows or hides the engine's diagnostics object. Shown by default.
    pub fn enable_hermes_internal(self, v: bool) -> (b: Self)
        ensures
            b@ == (ConfigModel { enable_hermes_internal: v, ..self@ }),
    {
        let mut b = self;
        b.config.enable_hermes_internal = v;
        b
    }

    /// Gives the diagnostics object its test methods, or takes them away.
    /// Without them by default.
    pub fn enable_hermes_internal_test_methods(self, v: bool) -> (b: Self)
        ensures
            b@ == (ConfigModel { enable_hermes_internal_test_methods: v, ..self@ }),
    {
        let mut b = self;
        b.config.enable_hermes_internal_test_methods = v;
        b
    }

    /// Sets the largest number of registers. 131072 by default.
    pub fn max_num_registers(self, v: u32) -> (b: Self)
        ensures
            b@ == (ConfigModel { max_num_registers: v, ..self@ }),
    {
        let mut b = self;
        b.config.max_num_registers = v;
        b
    }

    /// The options as chosen. They cannot be changed afterwards.
    pub fn build(self) -> (c: RuntimeConfig)
        ensures
            c@ == self@,
    {
        self.config
    }
}

/// The name under which a script is known when none is given.
pub const DEFAULT_SOURCE_URL: &'static str = "<eval>";

/// A script that is to be evaluated: its text, and the name under which it
/// appears in stack traces.
#[derive(Clone, Copy, Debug)]
pub struct Script<'a> {
    pub code: &'a str,
    pub url: &'a str,
}

/// One created engine instance.
///
/// Every value and typed handle borrows the `Runtime` it belongs to, so none
/// of them can outlive it. The engine has no locks of its own: a `Runtime`
/// can neither be sent to another thread nor be shared with one, and what
/// borrows it is confined with it.
#[derive(Debug)]
pub struct Runtime {
    handle: u64,
    confined: PhantomData<Rc<()>>,
}

impl View for Runtime {
    type V = u64;

    closed spec fn view(&self) -> u64 {
        self.handle
    }
}

/// What creating an engine ends in, given the handle that the engine's
/// constructor returned: zero says that it failed.
pub open spec fn created_model(handle: u64) -> Result<u64, ErrorModel> {
    if handle == 0 {
        Err(ErrorModel::RuntimeError("failed to create Hermes runtime"@))
    } else {
        Ok(handle)
    }
}

/// What draining the microtask queue ends in, given the engine's status
/// code and the outcome of draining the error latches afterwards.
pub open spec fn microtasks_model(status: i32, drained: Result<(), ErrorModel>) -> Result<
    bool,
    ErrorModel,
> {
    match drained {
        Err(e) => Err(e),
        Ok(()) => Ok(status == 1),
    }
}

impl Runtime {
    #[verifier::type_invariant]
    spec fn inv(&self) -> bool {
        self.handle != 0
    }

    /// Takes ownership of the engine behind `handle`, which is what the
    /// engine's constructor returned. A zero handle means that no engine was
    /// created.
    pub fn adopt(handle: u64) -> (r: Result<Runtime, Error>)
        ensures
            match r {
                Ok(rt) => created_model(handle) == Ok::<u64, ErrorModel>(rt@),
                Err(e) => created_model(handle) == Err::<u64, ErrorModel>(e@),
            },
    {
        if handle == 0 {
            Err(Error::RuntimeError(String::from_str("failed to create Hermes runtime")))
        } else {
            Ok(Runtime { handle, confined: PhantomData })
        }
    }

    /// The handle of the engine. It is never zero.
    pub fn handle(&self) -> (h: u64)
        ensures
            h == self@,
            h != 0,
    {
        proof {
            use_type_invariant(self);
        }
        self.handle
    }

    /// The script `code` under the default name.
    pub fn eval<'a>(&self, code: &'a str) -> (s: Script<'a>)
        ensures
            s.code@ == code@,
            s.url@ == DEFAULT_SOURCE_URL@,
    {
        self.eval_with_url(code, DEFAULT_SOURCE_URL)
    }

    /// The script `code` under the name `url`.
    pub fn eval_with_url<'a>(&self, code: &'a str, url: &'a str) -> (s: Script<'a>)
        ensures
            s.code@ == code@,
            s.url@ == url@,
    {
        Script { code, url }
    }

    /// Whether the microtask queue was drained to the end. `status` is the
    /// engine's status code, which is 1 when nothing is left in the queue, and
    /// `drained` the outcome of draining the error latches after the call: an
    /// error that was pending is the result.
    pub fn drain_microtasks(&self, status: i32, drained: Result<(), Error>) -> (r: Result<
        bool,
        Error,
    >)
        ensures
            match r {
                Ok(b) => microtasks_model(status, unit_outcome(drained)) == Ok::<bool, ErrorModel>(
                    b,
                ),
                Err(e) => microtasks_model(status, unit_outcome(drained)) == Err::<
                    bool,
                    ErrorModel,
                >(e@),
            },
    {
        match drained {
            Err(e) => Err(e),
            Ok(()) => Ok(status == 1),
        }
    }
}

/// The mathematical content of the outcome of draining the error latches.
pub open spec fn unit_outcome(drained: Result<(), Error>) -> Result<(), ErrorModel> {
    match drained {
        Ok(()) => Ok(()),
        Err(e) => Err(e@),
    }
}

} // verus!
