# subagent_panel

The live panel of subagents that a chat on a terminal pins above its composer: a registry of the
agents that were seen, the panel of those that are starting or at work, a dashboard of all of them,
and the chat's decisions on what tools report.

- `src/` is the library, verified with Verus. The contract of each function says what it returns or
  changes, and the files that end in `_laws` prove what holds over several calls. One body is not
  verified: that of `paragraph_line_count`, which calls ratatui.
- `app/` puts the library on a terminal: it runs the chat's plans on a host, shares the state of the
  pinned panel, and paints lines with ratatui.
- `tests/` runs the library.

A handler of the chat does not act by itself. It returns a plan: actions for the host, in order, and,
where the next decision needs another look at the host, what is pending. The host performs the
actions, looks, and resumes.

Shortening a text, writing a duration and spelling out a shimmer are the host's: the library takes the
first two as functions and marks the third in the paint of a span.

The library believes two things without proof: that `char::is_whitespace` tells the characters with
the Unicode `White_Space` property, and that `Paragraph::line_count` of ratatui is a function of the
texts of the spans and the width. Of the ends of a channel from tokio it says only that one call gave
out both.
