# wx_robot

A WeChat official-account robot. The verified library (`src/`) classifies
incoming messages and composes their XML replies (greeting, menu-click
reply, keyword reply, picture article, textbook hint), keeps the set of
users that were already sent the hint together with the text its store file
gains, builds the reply tables from the configuration, answers the
platform's URL check, and steps through the menu rebuild
(token, delete, create).

`app/` is the HTTP server around it: it reads the configuration and files,
parses incoming XML and JSON, reads the clock, writes the store file and
sends the menu requests.
