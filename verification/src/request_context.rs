//! What a client sets on all its requests.

use std::sync::Arc;
use vstd::prelude::*;

use crate::interceptor::{linked, RpcInterceptor, RpcInterceptorChain, RpcInterceptorView};
use crate::kv::order::bytes_to_vec;
use crate::proto::kvrpcpb::{
    Consumption, Context, ContextView, DiskFullOpt, ResourceControlContext, ResourceControlContextView,
};
use crate::store::request::{CommandPriority, Request};

verus! {

/// What is traced of a request.
#[derive(Clone, Copy, Debug, PartialEq, Eq, Structural)]
pub struct TraceControlFlags(pub u64);

/// What a client sets on all its requests. What is `None` stays as each request has it.
#[derive(Debug)]
pub struct RequestContext<T, I> {
    pub request_source: Option<String>,
    pub resource_group_tag: Option<Vec<u8>>,
    pub resource_group_name: Option<String>,
    pub priority: Option<CommandPriority>,
    pub disk_full_opt: Option<DiskFullOpt>,
    pub txn_source: Option<u64>,
    pub trace_id: Option<Vec<u8>>,
    pub trace_control_flags: Option<u64>,
    pub resource_control_override_priority: Option<u64>,
    pub resource_control_penalty: Option<Consumption>,
    /// Gives the tag of the resource group where none is fixed.
    pub resource_group_tagger: Option<Arc<T>>,
    pub rpc_interceptors: RpcInterceptorChain<I>,
}

/// What a [`RequestContext`] holds.
#[verifier::ext_equal]
pub struct RequestContextView<T, I> {
    pub request_source: Option<Seq<char>>,
    pub resource_group_tag: Option<Seq<u8>>,
    pub resource_group_name: Option<Seq<char>>,
    pub priority: Option<CommandPriority>,
    pub disk_full_opt: Option<DiskFullOpt>,
    pub txn_source: Option<u64>,
    pub trace_id: Option<Seq<u8>>,
    pub trace_control_flags: Option<u64>,
    pub resource_control_override_priority: Option<u64>,
    pub resource_control_penalty: Option<Seq<u8>>,
    pub resource_group_tagger: Option<T>,
    pub rpc_interceptors: Seq<RpcInterceptorView<I>>,
}

/// The set value, or the one that was there.
pub open spec fn set_or<T>(set: Option<T>, was: T) -> T {
    match set {
        Some(value) => value,
        None => was,
    }
}

impl<T, I> RequestContextView<T, I> {
    /// Nothing is set.
    pub open spec fn blank() -> RequestContextView<T, I> {
        RequestContextView {
            request_source: None,
            resource_group_tag: None,
            resource_group_name: None,
            priority: None,
            disk_full_opt: None,
            txn_source: None,
            trace_id: None,
            trace_control_flags: None,
            resource_control_override_priority: None,
            resource_control_penalty: None,
            resource_group_tagger: None,
            rpc_interceptors: Seq::empty(),
        }
    }

    /// Something of the control of resources is set.
    pub open spec fn controls_resources(self) -> bool {
        self.resource_group_name is Some || self.resource_control_override_priority is Some
            || self.resource_control_penalty is Some
    }

    /// A control of resources with what is set here.
    pub open spec fn control_applied_to(
        self,
        control: ResourceControlContextView,
    ) -> ResourceControlContextView {
        ResourceControlContextView {
            resource_group_name: set_or(self.resource_group_name, control.resource_group_name),
            override_priority: set_or(
                self.resource_control_override_priority,
                control.override_priority,
            ),
            penalty: match self.resource_control_penalty {
                Some(penalty) => Some(penalty),
                None => control.penalty,
            },
        }
    }

    /// A context with the texts that are set here.
    pub open spec fn texts_applied_to(self, context: ContextView) -> ContextView {
        ContextView {
            request_source: set_or(self.request_source, context.request_source),
            resource_group_tag: set_or(self.resource_group_tag, context.resource_group_tag),
            trace_id: set_or(self.trace_id, context.trace_id),
            ..context
        }
    }

    /// A context with the numbers that are set here.
    pub open spec fn numbers_applied_to(self, context: ContextView) -> ContextView {
        ContextView {
            priority: match self.priority {
                Some(priority) => priority.spec_number(),
                None => context.priority,
            },
            disk_full_opt: match self.disk_full_opt {
                Some(opt) => opt.spec_number(),
                None => context.disk_full_opt,
            },
            txn_source: set_or(self.txn_source, context.txn_source),
            trace_control_flags: set_or(self.trace_control_flags, context.trace_control_flags),
            ..context
        }
    }

    /// A context with what is set here.
    pub open spec fn applied_to(self, context: ContextView) -> ContextView {
        ContextView {
            resource_control_context: if self.controls_resources() {
                Some(self.control_applied_to(context.control()))
            } else {
                context.resource_control_context
            },
            ..self.numbers_applied_to(self.texts_applied_to(context))
        }
    }
}

pub open spec fn text_view(text: Option<String>) -> Option<Seq<char>> {
    match text {
        Some(text) => Some(text@),
        None => None,
    }
}

pub open spec fn bytes_view(bytes: Option<Vec<u8>>) -> Option<Seq<u8>> {
    match bytes {
        Some(bytes) => Some(bytes@),
        None => None,
    }
}

pub fn clone_text(text: &Option<String>) -> (r: Option<String>)
    ensures
        text_view(r) == text_view(*text),
{
    match text {
        Some(text) => Some(text.clone()),
        None => None,
    }
}

pub fn clone_bytes(bytes: &Option<Vec<u8>>) -> (r: Option<Vec<u8>>)
    ensures
        bytes_view(r) == bytes_view(*bytes),
{
    match bytes {
        Some(bytes) => Some(bytes_to_vec(bytes)),
        None => None,
    }
}

/// The tagger, if there is one.
pub open spec fn tagger_view<T>(tagger: Option<Arc<T>>) -> Option<T> {
    match tagger {
        Some(tagger) => Some(*tagger),
        None => None,
    }
}

impl<T, I> View for RequestContext<T, I> {
    type V = RequestContextView<T, I>;

    open spec fn view(&self) -> RequestContextView<T, I> {
        RequestContextView {
            request_source: text_view(self.request_source),
            resource_group_tag: bytes_view(self.resource_group_tag),
            resource_group_name: text_view(self.resource_group_name),
            priority: self.priority,
            disk_full_opt: self.disk_full_opt,
            txn_source: self.txn_source,
            trace_id: bytes_view(self.trace_id),
            trace_control_flags: self.trace_control_flags,
            resource_control_override_priority: self.resource_control_override_priority,
            resource_control_penalty: match self.resource_control_penalty {
                Some(penalty) => Some(penalty.encoded@),
                None => None,
            },
            resource_group_tagger: tagger_view(self.resource_group_tagger),
            rpc_interceptors: self.rpc_interceptors@,
        }
    }
}

impl<T, I> Default for RequestContext<T, I> {
    fn default() -> (r: Self)
        ensures
            r@ == RequestContextView::<T, I>::blank(),
    {
        RequestContext {
            request_source: None,
            resource_group_tag: None,
            resource_group_name: None,
            priority: None,
            disk_full_opt: None,
            txn_source: None,
            trace_id: None,
            trace_control_flags: None,
            resource_control_override_priority: None,
            resource_control_penalty: None,
            resource_group_tagger: None,
            rpc_interceptors: RpcInterceptorChain::new(),
        }
    }
}

impl<T, I> Clone for RequestContext<T, I> {
    fn clone(&self) -> (r: Self)
        ensures
            r@ == self@,
    {
        RequestContext {
            request_source: clone_text(&self.request_source),
            resource_group_tag: clone_bytes(&self.resource_group_tag),
            resource_group_name: clone_text(&self.resource_group_name),
            priority: self.priority,
            disk_full_opt: self.disk_full_opt,
            txn_source: self.txn_source,
            trace_id: clone_bytes(&self.trace_id),
            trace_control_flags: self.trace_control_flags,
            resource_control_override_priority: self.resource_control_override_priority,
            resource_control_penalty: match &self.resource_control_penalty {
                Some(penalty) => Some(Consumption { encoded: bytes_to_vec(&penalty.encoded) }),
                None => None,
            },
            resource_group_tagger: match &self.resource_group_tagger {
                Some(tagger) => Some(tagger.clone()),
                None => None,
            },
            rpc_interceptors: self.rpc_interceptors.clone(),
        }
    }
}

impl<T, I> RequestContext<T, I> {
    /// With the source of the requests.
    pub fn with_request_source(self, source: String) -> (r: Self)
        ensures
            r@ == (RequestContextView { request_source: Some(source@), ..self@ }),
    {
        RequestContext { request_source: Some(source), ..self }
    }

    /// With a fixed tag of the resource group.
    pub fn with_resource_group_tag(self, tag: Vec<u8>) -> (r: Self)
        ensures
            r@ == (RequestContextView { resource_group_tag: Some(tag@), ..self@ }),
    {
        RequestContext { resource_group_tag: Some(tag), ..self }
    }

    /// With the name of the resource group.
    pub fn with_resource_group_name(self, name: String) -> (r: Self)
        ensures
            r@ == (RequestContextView { resource_group_name: Some(name@), ..self@ }),
    {
        RequestContext { resource_group_name: Some(name), ..self }
    }

    /// With the priority of the commands.
    pub fn with_priority(self, priority: CommandPriority) -> (r: Self)
        ensures
            r@ == (RequestContextView { priority: Some(priority), ..self@ }),
    {
        RequestContext { priority: Some(priority), ..self }
    }

    /// With word of whether stores with a full disk may serve the requests.
    pub fn with_disk_full_opt(self, disk_full_opt: DiskFullOpt) -> (r: Self)
        ensures
            r@ == (RequestContextView { disk_full_opt: Some(disk_full_opt), ..self@ }),
    {
        RequestContext { disk_full_opt: Some(disk_full_opt), ..self }
    }

    /// With the source of the transaction.
    pub fn with_txn_source(self, txn_source: u64) -> (r: Self)
        ensures
            r@ == (RequestContextView { txn_source: Some(txn_source), ..self@ }),
    {
        RequestContext { txn_source: Some(txn_source), ..self }
    }

    /// With the id under which the requests are traced.
    pub fn with_trace_id(self, trace_id: Vec<u8>) -> (r: Self)
        ensures
            r@ == (RequestContextView { trace_id: Some(trace_id@), ..self@ }),
    {
        RequestContext { trace_id: Some(trace_id), ..self }
    }

    /// With the flags that say what is traced.
    pub fn with_trace_control_flags(self, flags: u64) -> (r: Self)
        ensures
            r@ == (RequestContextView { trace_control_flags: Some(flags), ..self@ }),
    {
        RequestContext { trace_control_flags: Some(flags), ..self }
    }

    /// With the priority that stands in for that of the resource group.
    pub fn with_resource_control_override_priority(self, override_priority: u64) -> (r: Self)
        ensures
            r@ == (RequestContextView {
                resource_control_override_priority: Some(override_priority),
                ..self@
            }),
    {
        RequestContext { resource_control_override_priority: Some(override_priority), ..self }
    }

    /// With what the resource group is charged in advance.
    pub fn with_resource_control_penalty(self, penalty: Consumption) -> (r: Self)
        ensures
            r@ == (RequestContextView {
                resource_control_penalty: Some(penalty.encoded@),
                ..self@
            }),
    {
        RequestContext { resource_control_penalty: Some(penalty), ..self }
    }

    /// With the code that gives the tag of the resource group where none is fixed.
    pub fn with_resource_group_tagger(self, tagger: T) -> (r: Self)
        ensures
            r@ == (RequestContextView { resource_group_tagger: Some(tagger), ..self@ }),
    {
        RequestContext { resource_group_tagger: Some(Arc::new(tagger)), ..self }
    }

    /// With the interceptors, and no other ones.
    pub fn with_rpc_interceptors(self, interceptors: RpcInterceptorChain<I>) -> (r: Self)
        ensures
            r@ == (RequestContextView { rpc_interceptors: interceptors@, ..self@ }),
    {
        RequestContext { rpc_interceptors: interceptors, ..self }
    }

    /// With one more interceptor. It takes the place of the one with the same name, if there is
    /// one.
    pub fn add_rpc_interceptor(self, interceptor: RpcInterceptor<I>) -> (r: Self)
        ensures
            r@ == (RequestContextView {
                rpc_interceptors: linked(self@.rpc_interceptors, interceptor@),
                ..self@
            }),
    {
        let mut r = self;
        r.rpc_interceptors.link(interceptor);
        r
    }

    /// Whether there is a fixed tag of the resource group.
    pub fn has_resource_group_tag(&self) -> (r: bool)
        ensures
            r == self@.resource_group_tag is Some,
    {
        self.resource_group_tag.is_some()
    }

    /// Set what is set here of the control of resources.
    fn apply_to_control(&self, control: &mut ResourceControlContext)
        ensures
            final(control)@ == self@.control_applied_to(old(control)@),
    {
        if let Some(name) = &self.resource_group_name {
            control.resource_group_name = name.clone();
        }
        if let Some(priority) = self.resource_control_override_priority {
            control.override_priority = priority;
        }
        if let Some(penalty) = &self.resource_control_penalty {
            control.penalty = Some(Consumption { encoded: bytes_to_vec(&penalty.encoded) });
        }
    }

    /// Set the texts that are set here.
    fn apply_texts(&self, context: &mut Context)
        ensures
            final(context)@ == self@.texts_applied_to(old(context)@),
    {
        if let Some(source) = &self.request_source {
            context.request_source = source.clone();
        }
        if let Some(tag) = &self.resource_group_tag {
            context.resource_group_tag = bytes_to_vec(tag);
        }
        if let Some(trace_id) = &self.trace_id {
            context.trace_id = bytes_to_vec(trace_id);
        }
    }

    /// Set the numbers that are set here.
    fn apply_numbers(&self, context: &mut Context)
        ensures
            final(context)@ == self@.numbers_applied_to(old(context)@),
    {
        if let Some(priority) = self.priority {
            context.priority = priority.number();
        }
        if let Some(opt) = self.disk_full_opt {
            context.disk_full_opt = opt.number();
        }
        if let Some(txn_source) = self.txn_source {
            context.txn_source = txn_source;
        }
        if let Some(flags) = self.trace_control_flags {
            context.trace_control_flags = flags;
        }
    }

    /// A request with what is set here.
    pub fn apply_to<R: Request>(&self, request: R) -> (r: R)
        ensures
            r.model() == request.model().with(
                self@.applied_to(request.model().started()),
            ),
    {
        let mut request = request;
        let context = request.context_mut();
        self.apply_texts(context);
        self.apply_numbers(context);
        if self.resource_group_name.is_some() || self.resource_control_override_priority.is_some()
            || self.resource_control_penalty.is_some() {
            let control = context.control_mut();
            self.apply_to_control(control);
        }
        request
    }
}

} // verus!
