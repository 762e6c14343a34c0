# find_my_operations

A bot that watches the /pol/ board of 4chan for threads announcing an
"operation", records them, their replies and the hashtags and links found in
them in SQLite, and announces new or growing ones on a Slack channel.

- `src/` is the verified library (Verus): the API records and addresses, the
  keyword filter, the table rows and their conversions, the operation name of
  a thread, the items kept from a comment, the Slack announcement text, and the
  insert / update / skip decisions.
- `app/` is the program around it: HTTP fetches, the SQLite tables, Slack.
- `tests/` exercises the library on concrete values.
