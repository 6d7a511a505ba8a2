//! The popups by which settings are changed.

use vstd::prelude::*;
use vstd::string::*;

use crate::actions::{Action, SelectionItem, SelectionView};
use crate::chat_widget::{ChatWidget, ModelProvider};
use crate::reply::{one_channel, reply_channel};
use crate::sort::{by_rank, sort_by_rank, Ranked};
use crate::styled::{line_views, painted, plain, span, Line, SpanView};
use crate::text::{
    comes_before, same_text, text_before, text_order_is_transitive, texts_are_ordered,
};
use crate::thread_id::ThreadId;

verus! {

impl Ranked for ModelProvider {
    open spec fn precedes(self, other: Self) -> bool {
        text_before(self.id@, other.id@)
    }

    proof fn asymmetric(a: Self, b: Self) {
        texts_are_ordered(a.id@, b.id@);
    }

    proof fn comparable(a: Self, b: Self, c: Self) {
        texts_are_ordered(a.id@, b.id@);
        if a.precedes(c) && b.precedes(a) {
            text_order_is_transitive(b.id@, a.id@, c.id@);
        }
    }

    fn before(&self, other: &Self) -> (yes: bool) {
        comes_before(self.id.as_str(), other.id.as_str())
    }
}

impl Clone for ModelProvider {
    fn clone(&self) -> (copy: Self)
        ensures
            copy == *self,
    {
        ModelProvider { id: self.id.clone(), name: self.name.clone() }
    }
}

/// The header of the list of providers.
pub open spec fn provider_header() -> Seq<Seq<SpanView>> {
    seq![
        seq![painted("Select Model Provider"@, plain().bold())],
        seq![painted("Switch this session to another configured provider."@, plain().dim())],
    ]
}

/// The entry of a provider: picking it switches to the provider and closes the list.
pub open spec fn provider_item(provider: ModelProvider, current: Seq<char>) -> SelectionItem {
    SelectionItem {
        name: provider.name,
        description: Some(provider.id),
        is_current: provider.id@ == current,
        selects_provider: provider.id,
        dismiss_on_select: true,
    }
}

/// The entries of the providers, by identity.
pub open spec fn provider_items(providers: Seq<ModelProvider>, current: Seq<char>) -> Seq<
    SelectionItem,
> {
    by_rank(providers).map_values(|provider: ModelProvider| provider_item(provider, current))
}

/// Whether `action` tells the user `message`, with no hint.
pub open spec fn informs<P>(action: Action<P>, message: Seq<char>) -> bool {
    action matches Action::AddInfoMessage { message: text, hint } && text@ == message
        && hint is None
}

/// Whether `action` shows the list of providers.
pub open spec fn lists_providers<P>(
    action: Action<P>,
    providers: Seq<ModelProvider>,
    current: Seq<char>,
) -> bool {
    action matches Action::ShowSelectionView(view) && line_views(view.header@) == provider_header()
        && view.standard_footer_hint && view.items@ == provider_items(providers, current)
}

impl<P> ChatWidget<P> {
    /// Opens the list of providers that the session can be switched to, once the session is
    /// configured.
    pub fn open_provider_popup(&self) -> (actions: Vec<Action<P>>)
        ensures
            actions@.len() == 1,
            if self.context.session_configured {
                lists_providers(
                    actions@[0],
                    self.context.model_providers@,
                    self.context.model_provider_id@,
                )
            } else {
                informs(
                    actions@[0],
                    "Provider selection is disabled until startup completes."@,
                )
            },
    {
        if !self.context.session_configured {
            let message = "Provider selection is disabled until startup completes.".to_owned();
            return vec![Action::AddInfoMessage { message, hint: None }];
        }
        let current = &self.context.model_provider_id;
        let unsorted = self.context.model_providers.clone();
        assert(unsorted@ =~= self.context.model_providers@);
        let providers = sort_by_rank(unsorted);
        let mut items: Vec<SelectionItem> = Vec::new();
        let ghost wanted = provider_items(self.context.model_providers@, current@);
        let mut i: usize = 0;
        while i < providers.len()
            invariant
                i <= providers@.len(),
                providers@ == by_rank(self.context.model_providers@),
                wanted == provider_items(self.context.model_providers@, current@),
                items@ == wanted.take(i as int),
            decreases providers@.len() - i,
        {
            let provider = &providers[i];
            let is_current = same_text(provider.id.as_str(), current.as_str());
            items.push(
                SelectionItem {
                    name: provider.name.clone(),
                    description: Some(provider.id.clone()),
                    is_current,
                    selects_provider: provider.id.clone(),
                    dismiss_on_select: true,
                },
            );
            assert(wanted.take(i + 1) =~= wanted.take(i as int).push(wanted[i as int]));
            i += 1;
        }
        assert(wanted.take(i as int) =~= wanted);
        let title = Line { spans: vec![span("Select Model Provider", plain().bold())] };
        let subtitle = Line {
            spans: vec![
                span("Switch this session to another configured provider.", plain().dim()),
            ],
        };
        assert(title@ =~= provider_header()[0]);
        assert(subtitle@ =~= provider_header()[1]);
        let header = vec![title, subtitle];
        assert(line_views(header@) =~= provider_header());
        vec![Action::ShowSelectionView(SelectionView { header, standard_footer_hint: true, items })]
    }

    /// Fetches the experimental features of a thread and opens their list. What goes into the one end
    /// of the channel fills the list at the other.
    pub fn experimental_features_actions(
        &self,
        thread_id: &ThreadId,
        ends: (tokio::sync::oneshot::Sender<P>, tokio::sync::oneshot::Receiver<P>),
    ) -> (actions: Vec<Action<P>>)
        ensures
            actions@ == seq![
                Action::FetchExperimentalFeatures { thread_id: *thread_id, response_tx: ends.0 },
                Action::ShowExperimentalFeatures { thread_id: *thread_id, response_rx: ends.1 },
            ],
    {
        let (response_tx, response_rx) = ends;
        vec![
            Action::FetchExperimentalFeatures { thread_id: thread_id.clone(), response_tx },
            Action::ShowExperimentalFeatures { thread_id: thread_id.clone(), response_rx },
        ]
    }

    /// Opens the list of experimental features, which fills as soon as they are fetched, once there
    /// is a thread.
    pub fn open_experimental_popup(&self) -> (actions: Vec<Action<P>>)
        ensures
            match self.context.thread_id {
                Some(thread) => {
                    &&& actions@.len() == 2
                    &&& actions@[0] matches Action::FetchExperimentalFeatures { thread_id, .. }
                        && thread_id == thread
                    &&& actions@[1] matches Action::ShowExperimentalFeatures { thread_id, .. }
                        && thread_id == thread
                    &&& one_channel(
                        actions@[0]->FetchExperimentalFeatures_response_tx,
                        actions@[1]->ShowExperimentalFeatures_response_rx,
                    )
                },
                None => actions@.len() == 1 && informs(
                    actions@[0],
                    "Experimental features are unavailable until startup completes."@,
                ),
            },
    {
        match &self.context.thread_id {
            Some(thread_id) => self.experimental_features_actions(thread_id, reply_channel()),
            None => {
                let message =
                    "Experimental features are unavailable until startup completes.".to_owned();
                vec![Action::AddInfoMessage { message, hint: None }]
            },
        }
    }
}

} // verus!
