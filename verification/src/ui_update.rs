//! How the reader window follows a message: the work the message asks for,
//! then the state change, as [`spec_effects`] and [`spec_next`] state them.
use vstd::prelude::*;
use crate::models::{copy_articles, Article};
use crate::ui_state::{
    effect_views, find_article, next_reloaded, next_search_run, next_visibility, repaint_if_visible,
    search_run_effects, spec_effects, spec_next, visibility_effects, UiEffect, UiEffectView, UiMessage,
    ViewState,
};

verus! {

fn no_effects() -> (r: Vec<UiEffect>)
    ensures
        effect_views(r@) == Seq::<UiEffectView>::empty(),
{
    let r: Vec<UiEffect> = Vec::new();
    proof {
        assert(effect_views(r@) =~= Seq::<UiEffectView>::empty());
    }
    r
}

fn one_effect(e: UiEffect) -> (r: Vec<UiEffect>)
    ensures
        effect_views(r@) == seq![e@],
{
    let ghost v = e@;
    let mut r: Vec<UiEffect> = Vec::new();
    r.push(e);
    proof {
        assert(effect_views(r@) =~= seq![v]);
    }
    r
}

fn two_effects(a: UiEffect, b: UiEffect) -> (r: Vec<UiEffect>)
    ensures
        effect_views(r@) == seq![a@, b@],
{
    let ghost va = a@;
    let ghost vb = b@;
    let mut r: Vec<UiEffect> = Vec::new();
    r.push(a);
    r.push(b);
    proof {
        assert(effect_views(r@) =~= seq![va, vb]);
    }
    r
}

fn repaint_when(visible: bool) -> (r: Vec<UiEffect>)
    ensures
        effect_views(r@) == (if visible { seq![UiEffectView::Repaint] } else { Seq::<UiEffectView>::empty() }),
{
    if visible {
        one_effect(UiEffect::Repaint)
    } else {
        no_effects()
    }
}

impl ViewState {
    /// The work a message asks for in this state.
    pub fn message_effects(&self, msg: &UiMessage) -> (effects: Vec<UiEffect>)
        ensures
            effect_views(effects@) == spec_effects(self@, *msg),
    {
        let visible = self.is_window_visible;
        match msg {
            UiMessage::FeedsLoaded(_) | UiMessage::IndexingStarted(_) | UiMessage::IndexingCompleted
            | UiMessage::AIStreamData(_) | UiMessage::SearchResults(_) | UiMessage::SearchCompleted => {
                one_effect(UiEffect::Repaint)
            },
            UiMessage::ArticlesLoaded(_) | UiMessage::StatusMessage(_) | UiMessage::Error(_)
            | UiMessage::UnreadCountUpdated(_) | UiMessage::WebContentLoaded(_, _)
            | UiMessage::RequestRepaint | UiMessage::TranslationCompleted(_, _) => repaint_when(visible),
            UiMessage::AIStreamEnd => {
                if !self.ai_stream_response.as_str().is_empty() {
                    two_effects(UiEffect::SaveAssistantReply(self.ai_stream_response.clone()), UiEffect::Repaint)
                } else {
                    one_effect(UiEffect::Repaint)
                }
            },
            UiMessage::FeedRefreshed(id) => {
                if self.selected_feed_id == Some(*id) {
                    one_effect(UiEffect::LoadArticles(*id, visible))
                } else {
                    no_effects()
                }
            },
            UiMessage::AllFeedsRefreshed => match self.selected_feed_id {
                Some(f) => two_effects(UiEffect::ReloadFeeds, UiEffect::LoadArticles(f, visible)),
                None => one_effect(UiEffect::ReloadFeeds),
            },
            UiMessage::ArticleStatusUpdated(id, _, _) => {
                if find_article(&self.articles, *id).is_some() {
                    repaint_when(visible)
                } else {
                    no_effects()
                }
            },
            UiMessage::GroupsLoaded(_) => no_effects(),
            UiMessage::SelectAllFeeds | UiMessage::ClearSelectedFeed => one_effect(UiEffect::LoadAllArticles(visible)),
            UiMessage::UpdateIntervalLoaded(_) => {
                if self.auto_update_enabled {
                    one_effect(UiEffect::StartAutoUpdate)
                } else {
                    no_effects()
                }
            },
            UiMessage::AutoUpdateEnabledChanged(enabled) => {
                if *enabled {
                    one_effect(UiEffect::StartAutoUpdate)
                } else {
                    one_effect(UiEffect::StopAutoUpdate)
                }
            },
            UiMessage::ReloadArticles => match self.selected_feed_id {
                Some(f) => one_effect(UiEffect::ReloadArticlesNow(f)),
                None => no_effects(),
            },
            UiMessage::SearchArticles(query, feed_id) => {
                one_effect(UiEffect::Search(query.clone(), *feed_id, copy_articles(self.articles.as_slice())))
            },
            UiMessage::SelectArticle(id) => match find_article(&self.articles, *id) {
                Some(k) => {
                    if !self.articles[k].is_read {
                        if visible {
                            let r = two_effects(UiEffect::MarkedRead(*id), UiEffect::Repaint);
                            proof {
                                assert(seq![UiEffectView::MarkedRead(*id)] + repaint_if_visible(self@)
                                    =~= seq![UiEffectView::MarkedRead(*id), UiEffectView::Repaint]);
                            }
                            r
                        } else {
                            let r = one_effect(UiEffect::MarkedRead(*id));
                            proof {
                                assert(seq![UiEffectView::MarkedRead(*id)] + repaint_if_visible(self@)
                                    =~= seq![UiEffectView::MarkedRead(*id)]);
                            }
                            r
                        }
                    } else {
                        repaint_when(visible)
                    }
                },
                None => two_effects(UiEffect::LoadAllThenSelect(*id), UiEffect::EndFrame),
            },
        }
    }

    /// Follows a message that arrived at `now` (seconds since the Unix
    /// epoch): changes the state and returns the work the message asks for,
    /// in order.
    pub fn handle_message(&mut self, msg: UiMessage, now: u64) -> (effects: Vec<UiEffect>)
        ensures
            final(self)@ == spec_next(old(self)@, msg, now),
            effect_views(effects@) == spec_effects(old(self)@, msg),
    {
        let effects = self.message_effects(&msg);
        match msg {
            UiMessage::FeedsLoaded(feeds) => self.apply_feeds_loaded(feeds),
            UiMessage::IndexingStarted(total) => self.apply_indexing_started(total),
            UiMessage::IndexingCompleted => self.apply_indexing_completed(),
            UiMessage::ArticlesLoaded(articles) => self.apply_articles_loaded(articles),
            UiMessage::AIStreamData(data) => self.apply_stream_data(data),
            UiMessage::AIStreamEnd => self.apply_stream_end(),
            UiMessage::AllFeedsRefreshed => self.apply_all_refreshed(now),
            UiMessage::ArticleStatusUpdated(id, is_read, is_starred) => self.apply_marks(id, is_read, is_starred),
            UiMessage::StatusMessage(message) => self.apply_status(message),
            UiMessage::Error(error) => self.apply_error(error),
            UiMessage::SelectAllFeeds => self.apply_all_feeds(false),
            UiMessage::WebContentLoaded(content, _) => self.apply_web_content(content),
            UiMessage::ClearSelectedFeed => self.apply_all_feeds(true),
            UiMessage::UpdateIntervalLoaded(interval) => self.apply_interval(interval),
            UiMessage::AutoUpdateEnabledChanged(enabled) => self.apply_auto_update(enabled),
            UiMessage::SearchResults(articles) => self.apply_search_results(articles),
            UiMessage::SearchCompleted => self.apply_search_completed(),
            UiMessage::SelectArticle(id) => self.apply_select_article(id),
            UiMessage::TranslationCompleted(title, content) => self.apply_translation(title, content),
            UiMessage::FeedRefreshed(_) | UiMessage::UnreadCountUpdated(_) | UiMessage::GroupsLoaded(_)
            | UiMessage::ReloadArticles | UiMessage::SearchArticles(_, _) | UiMessage::RequestRepaint => {},
        }
        effects
    }

    /// Shows the articles of the chosen feed loaded again at once; returns
    /// the repaint asked for.
    pub fn apply_reloaded_articles(&mut self, articles: Vec<Article>) -> (effects: Vec<UiEffect>)
        ensures
            final(self)@ == next_reloaded(old(self)@, articles@),
            effect_views(effects@) == repaint_if_visible(old(self)@),
    {
        let effects = repaint_when(self.is_window_visible);
        self.apply_reloaded(articles);
        effects
    }

    /// Notes the window's visibility for this frame: when it has just become
    /// visible, the chosen feed's articles are loaded again.
    pub fn check_visibility(&mut self) -> (effects: Vec<UiEffect>)
        ensures
            final(self)@ == next_visibility(old(self)@),
            effect_views(effects@) == visibility_effects(old(self)@),
    {
        let effects = if !self.was_window_visible && self.is_window_visible {
            match self.selected_feed_id {
                Some(f) => two_effects(UiEffect::RefreshArticles(f), UiEffect::Repaint),
                None => one_effect(UiEffect::Repaint),
            }
        } else {
            no_effects()
        };
        self.apply_visibility();
        effects
    }

    /// Searches for the text of the search box (once typing has stopped).
    pub fn execute_search(&mut self) -> (effects: Vec<UiEffect>)
        ensures
            final(self)@ == next_search_run(old(self)@),
            effect_views(effects@) == search_run_effects(old(self)@),
    {
        let effects = if self.search_input.as_str().is_empty() {
            match self.selected_feed_id {
                Some(f) => one_effect(UiEffect::RefreshArticles(f)),
                None => no_effects(),
            }
        } else {
            let feed_id: i64 = match self.selected_feed_id {
                Some(f) => f,
                None => -1,
            };
            one_effect(UiEffect::SendSearch(self.search_input.clone(), feed_id))
        };
        self.apply_search_run();
        effects
    }
}

} // verus!
