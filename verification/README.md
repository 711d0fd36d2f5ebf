# feishu_bot

A chat bot that tells Feishu chats of events in GitHub repositories. A chat subscribes
with `@bot subscribe <repo> <pr|issue>`. It then gets a card whenever a pull request of
that repository is opened, closed or reopened, or an issue is opened, commented on, closed
or reopened.

`src/` is the library. It is verified with Verus: it parses commands, answers messages,
reads the events of the chat service, makes the cards about GitHub's, and decides what to
store, what to send and what to answer. It does no input or output of its own. Where it
needs a database, a server or the state of the machine, it returns a step, and a second
function takes what came of that step.

- `text`, `json`, `reply`: white space and decimal numbers, JSON values, answers
- `subscription`, `command`: what chats subscribe to, and the grammar of their commands
- `message`: the reply to each command
- `credential`: access tokens and repeated requests
- `feishu`, `github`: the events of the two services
- `laws`: what holds of the bot over the subscriptions that it stores

`app/` is the program around it: the web server, the database, the HTTP client, the memory
of the machine, and the reading of GitHub's payloads, whose types other crates define. It
holds a lock over each use of the credential and over each change of the database. It reads
its credential from `FEISHU_APP_ID` and `FEISHU_APP_SECRET`, and listens on port 18235.
