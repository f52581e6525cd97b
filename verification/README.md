# password_manager

A password-manager web service. `src/` is the verified library: the header
checks, the decisions of each endpoint (as a step function from what the
database answered to what to do next), and the laws they keep over a model
of the `users` table. `app/` is the Rocket program around it: it reads the
headers, runs the queries on PostgreSQL through Diesel, and sends replies.
